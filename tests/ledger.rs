use festival_tickets::{
    AddUserInfoRequest, ApiError, CapacityLimit, Ledger, TicketType, HOLD_WINDOW_MS,
};

fn ticket_type(id: &str, display: &str) -> TicketType {
    TicketType {
        id: id.to_string(),
        display: display.to_string(),
        sold_out: false,
    }
}

fn limit(id: &str, duration_days: i32, order_limit: u64) -> CapacityLimit {
    CapacityLimit {
        ticket_type_id: id.to_string(),
        duration_days,
        order_limit,
    }
}

fn festival() -> Ledger {
    Ledger::new(
        vec![
            ticket_type("tent", "Tent"),
            ticket_type("chalet2", "Chalet for two"),
            ticket_type("chalet3", "Chalet for three"),
            ticket_type("campervan", "Campervan"),
        ],
        vec![
            limit("chalet3", 3, 100),
            limit("chalet3", 4, 100),
            limit("chalet3", 5, 0),
            limit("tent", 3, 2),
        ],
    )
}

fn oscar() -> AddUserInfoRequest {
    AddUserInfoRequest {
        address: "22 Oscar St, Dorset, UK".to_string(),
        email: "oscar@oscar.com".to_string(),
        name: "Oscar".to_string(),
    }
}

const T0: i64 = 1_700_000_000_000;

fn now_ms() -> i64 {
    chrono::Utc::now().timestamp_millis()
}

#[test]
fn all_reserve_ticket() {
    let mut ledger = festival();
    let types = ledger.get_ticket_types();
    assert_eq!(types.len(), 4);

    let durations = ledger.get_ticket_durations("chalet3", now_ms());
    assert_eq!(durations.len(), 2);
    assert!(durations.contains(&3));
    assert!(durations.contains(&4));

    let order = ledger.add_ticket_to_basket("chalet3", 3, now_ms()).unwrap();
    assert_eq!(order.ticket_type_id, "chalet3".to_string());

    let expected_reservation_time = chrono::Utc::now().timestamp_millis() + 9 * 60 * 1000;
    println!("{:#?}", order);
    assert!(
        order.reserved_until >= expected_reservation_time,
        "Check ticket is reserved for at least 9 minutes"
    );
}

#[test]
fn all_purchase_ticket() {
    let mut ledger = festival();
    let order = ledger.add_ticket_to_basket("chalet3", 3, now_ms()).unwrap();
    assert_eq!(order.ticket_type_id, "chalet3".to_string());
    let expected_reservation_time = chrono::Utc::now().timestamp_millis() + 9 * 60 * 1000;
    assert!(
        order.reserved_until >= expected_reservation_time,
        "Check ticket is reserved for at least 9 minutes"
    );
    assert!(order.purchased_at.is_none());

    // Purchasing before user info is attached fails its precondition.
    let res = ledger.purchase_order(order.id, now_ms());
    assert!(matches!(res, Err(ApiError::FailedPrecondition(_))));

    let order = ledger.add_user_to_order(order.id, &oscar()).unwrap();
    assert!(order.user_id.is_some());

    let order = ledger.get_order(order.id).unwrap();
    assert!(order.user_id.is_some());

    let order = ledger.purchase_order(order.id, now_ms()).unwrap();
    assert!(order.purchased_at.is_some());
}

#[test]
fn scenario_reserve_attach_purchase_twice() {
    let mut ledger = festival();
    let order = ledger.add_ticket_to_basket("chalet3", 3, T0).unwrap();
    assert_eq!(order.reserved_until, T0 + 600_000);
    assert_eq!(order.duration, 3);
    assert!(order.user_id.is_none());
    assert!(order.purchased_at.is_none());

    let attached = ledger.add_user_to_order(order.id, &oscar()).unwrap();
    let user_id = attached.user_id.unwrap();
    let user = ledger.get_user(user_id).unwrap();
    assert_eq!(user.name, "Oscar".to_string());
    assert_eq!(user.email, "oscar@oscar.com".to_string());
    assert_eq!(user.address, "22 Oscar St, Dorset, UK".to_string());
    assert_eq!(user.order_id, order.id);

    let bought = ledger.purchase_order(order.id, T0 + 1_000).unwrap();
    assert_eq!(bought.purchased_at, Some(T0 + 1_000));

    let again = ledger.purchase_order(order.id, T0 + 2_000);
    assert!(matches!(again, Err(ApiError::FailedPrecondition(_))));
    assert_eq!(ledger.get_order(order.id).unwrap().purchased_at, Some(T0 + 1_000));
}

#[test]
fn purchase_before_attach_leaves_record_unchanged() {
    let mut ledger = festival();
    let order = ledger.add_ticket_to_basket("chalet3", 4, T0).unwrap();
    let res = ledger.purchase_order(order.id, T0 + 5);
    assert!(matches!(res, Err(ApiError::FailedPrecondition(_))));
    let stored = ledger.get_order(order.id).unwrap();
    assert!(stored.user_id.is_none());
    assert!(stored.purchased_at.is_none());
    assert_eq!(stored.reserved_until, T0 + HOLD_WINDOW_MS);
}

#[test]
fn reclaim_removes_expired_unattached_order() {
    let mut ledger = festival();
    let order = ledger.add_ticket_to_basket("chalet3", 3, T0).unwrap();
    assert_eq!(ledger.remove_expired_orders(order.reserved_until), 0);
    assert!(ledger.get_order(order.id).is_ok());
    assert_eq!(ledger.remove_expired_orders(order.reserved_until + 1), 1);
    assert!(matches!(ledger.get_order(order.id), Err(ApiError::NotFound(_))));
}

#[test]
fn reclaim_keeps_purchased_and_live_orders() {
    let mut ledger = festival();
    let bought = ledger.add_ticket_to_basket("chalet3", 3, T0).unwrap();
    ledger.add_user_to_order(bought.id, &oscar()).unwrap();
    ledger.purchase_order(bought.id, T0 + 10).unwrap();
    let attached = ledger.add_ticket_to_basket("chalet3", 4, T0).unwrap();
    ledger.add_user_to_order(attached.id, &oscar()).unwrap();
    let live = ledger.add_ticket_to_basket("tent", 3, T0 + 600_000).unwrap();

    assert_eq!(ledger.remove_expired_orders(T0 + 600_001), 1);
    assert!(ledger.get_order(bought.id).is_ok());
    assert!(matches!(ledger.get_order(attached.id), Err(ApiError::NotFound(_))));
    assert!(ledger.get_order(live.id).is_ok());
}

#[test]
fn purchase_wins_race_against_reclaim() {
    let mut ledger = festival();
    let order = ledger.add_ticket_to_basket("chalet3", 3, T0).unwrap();
    ledger.add_user_to_order(order.id, &oscar()).unwrap();
    let late = T0 + HOLD_WINDOW_MS + 1;
    assert!(ledger.purchase_order(order.id, late).is_ok());
    assert_eq!(ledger.remove_expired_orders(late + 1), 0);
    assert!(ledger.get_order(order.id).is_ok());
}

#[test]
fn reclaim_wins_race_against_purchase() {
    let mut ledger = festival();
    let order = ledger.add_ticket_to_basket("chalet3", 3, T0).unwrap();
    ledger.add_user_to_order(order.id, &oscar()).unwrap();
    let late = T0 + HOLD_WINDOW_MS + 1;
    assert_eq!(ledger.remove_expired_orders(late), 1);
    let res = ledger.purchase_order(order.id, late + 1);
    assert!(matches!(res, Err(ApiError::FailedPrecondition(_))));
}

#[test]
fn many_purchases_exactly_one_succeeds() {
    let mut ledger = festival();
    let order = ledger.add_ticket_to_basket("chalet3", 3, T0).unwrap();
    ledger.add_user_to_order(order.id, &oscar()).unwrap();
    let n = 16;
    let mut ok = 0;
    let mut failed_precondition = 0;
    for k in 0..n {
        match ledger.purchase_order(order.id, T0 + k) {
            Ok(_) => ok += 1,
            Err(ApiError::FailedPrecondition(_)) => failed_precondition += 1,
            Err(e) => panic!("unexpected error {:?}", e),
        }
    }
    assert_eq!(ok, 1);
    assert_eq!(failed_precondition, n - 1);
    assert_eq!(ledger.get_order(order.id).unwrap().purchased_at, Some(T0));
}

#[test]
fn unknown_ticket_type_is_not_found() {
    let mut ledger = festival();
    let res = ledger.add_ticket_to_basket("yurt", 3, T0);
    assert!(matches!(res, Err(ApiError::NotFound(_))));
    assert!(ledger.get_order_stats(T0).iter().all(|s| s.order_count == 0));
}

#[test]
fn attach_user_errors() {
    let mut ledger = festival();
    assert!(matches!(
        ledger.add_user_to_order(42, &oscar()),
        Err(ApiError::NotFound(_))
    ));
    let order = ledger.add_ticket_to_basket("chalet3", 3, T0).unwrap();
    let first = ledger.add_user_to_order(order.id, &oscar()).unwrap();
    let second = ledger.add_user_to_order(order.id, &oscar());
    assert!(matches!(second, Err(ApiError::FailedPrecondition(_))));
    assert_eq!(ledger.get_order(order.id).unwrap().user_id, first.user_id);
    assert!(matches!(ledger.get_user(999), Err(ApiError::NotFound(_))));
}

#[test]
fn order_ids_are_distinct() {
    let mut ledger = festival();
    let a = ledger.add_ticket_to_basket("chalet3", 3, T0).unwrap();
    let b = ledger.add_ticket_to_basket("chalet3", 3, T0).unwrap();
    assert_ne!(a.id, b.id);
}

#[test]
fn stats_and_durations() {
    let mut ledger = festival();
    ledger.add_ticket_to_basket("tent", 3, T0).unwrap();
    ledger.add_ticket_to_basket("chalet3", 4, T0).unwrap();
    let stats = ledger.get_order_stats(T0);
    assert_eq!(stats.len(), 4);
    assert_eq!(stats[0].order_count, 0);
    assert_eq!(stats[1].order_count, 1);
    assert_eq!(stats[2].order_count, 0);
    assert_eq!(stats[3].ticket_type_id, "tent".to_string());
    assert_eq!(stats[3].order_limit, 2);
    assert_eq!(stats[3].order_count, 1);

    assert_eq!(ledger.get_ticket_durations("tent", T0), vec![3]);
    ledger.add_ticket_to_basket("tent", 3, T0).unwrap();
    assert!(ledger.get_ticket_durations("tent", T0).is_empty());
    assert!(ledger.get_ticket_durations("yurt", T0).is_empty());
    assert_eq!(ledger.get_ticket_durations("chalet3", T0), vec![3, 4]);
}

#[test]
fn expired_holds_are_not_counted() {
    let mut ledger = festival();
    let held = ledger.add_ticket_to_basket("tent", 3, T0).unwrap();
    let bought = ledger.add_ticket_to_basket("tent", 3, T0).unwrap();
    ledger.add_user_to_order(bought.id, &oscar()).unwrap();
    ledger.purchase_order(bought.id, T0 + 1).unwrap();

    // Within the hold window both count, and the pair is full.
    assert_eq!(ledger.get_order_stats(held.reserved_until)[3].order_count, 2);
    assert!(ledger.get_ticket_durations("tent", held.reserved_until).is_empty());

    // Once the hold has ended, only the purchase counts, reaped or not.
    let later = held.reserved_until + 1;
    assert_eq!(ledger.get_order_stats(later)[3].order_count, 1);
    assert_eq!(ledger.get_ticket_durations("tent", later), vec![3]);
    assert!(ledger.get_order(held.id).is_ok());
}

#[test]
fn ticket_types_are_never_sold_out() {
    let mut ledger = festival();
    ledger.add_ticket_to_basket("tent", 3, T0).unwrap();
    ledger.add_ticket_to_basket("tent", 3, T0).unwrap();
    let types = ledger.get_ticket_types();
    assert_eq!(types.len(), 4);
    assert_eq!(types[0].id, "tent".to_string());
    assert_eq!(types[0].display, "Tent".to_string());
    assert!(types.iter().all(|t| !t.sold_out));
}

#[test]
fn error_messages() {
    let mut ledger = festival();
    match ledger.get_order(1234) {
        Err(ApiError::NotFound(m)) => assert_eq!(m, "order 1234 not found".to_string()),
        other => panic!("expected NotFound, got {:?}", other),
    }
    match ledger.get_order(0) {
        Err(ApiError::NotFound(m)) => assert_eq!(m, "order 0 not found".to_string()),
        other => panic!("expected NotFound, got {:?}", other),
    }
    match ledger.get_user(u64::MAX) {
        Err(ApiError::NotFound(m)) => {
            assert_eq!(m, "user 18446744073709551615 not found".to_string())
        }
        other => panic!("expected NotFound, got {:?}", other),
    }
    match ledger.purchase_order(77, T0) {
        Err(ApiError::FailedPrecondition(m)) => {
            assert_eq!(m, "already purchased or expired".to_string())
        }
        other => panic!("expected FailedPrecondition, got {:?}", other),
    }
    let order = ledger.add_ticket_to_basket("chalet3", 3, T0).unwrap();
    match ledger.purchase_order(order.id, T0) {
        Err(ApiError::FailedPrecondition(m)) => {
            assert_eq!(m, "user info missing from order".to_string())
        }
        other => panic!("expected FailedPrecondition, got {:?}", other),
    }
    ledger.add_user_to_order(order.id, &oscar()).unwrap();
    ledger.purchase_order(order.id, T0).unwrap();
    match ledger.purchase_order(order.id, T0 + 1) {
        Err(ApiError::FailedPrecondition(m)) => {
            assert_eq!(m, "already purchased or expired".to_string())
        }
        other => panic!("expected FailedPrecondition, got {:?}", other),
    }
}
