//! Configuration keys and the CamelCase to SCREAMING_SNAKE_CASE rule that
//! turns a key's name into the name of its environment variable.
use vstd::prelude::*;

verus! {

/// Failure to read a configuration value: the key, and what went wrong.
#[derive(Debug)]
pub enum CfgError {
    LoadFailed(String, String),
}

/// The configuration values that the service reads from its environment.
#[derive(Debug)]
pub enum Cfg {
    DatabaseUrl,
}

pub open spec fn is_ascii_upper(c: char) -> bool {
    'A' <= c && c <= 'Z'
}

pub open spec fn is_ascii_lower(c: char) -> bool {
    'a' <= c && c <= 'z'
}

/// `c` with an ASCII lower-case letter mapped to its upper-case form.
pub open spec fn ascii_upper(c: char) -> char {
    if is_ascii_lower(c) {
        ((c as u32) - 32) as char
    } else {
        c
    }
}

/// Every character upper-cased, with `_` before each ASCII capital that is
/// not the first character.
pub open spec fn snake_of(s: Seq<char>) -> Seq<char>
    decreases s.len(),
{
    if s.len() == 0 {
        Seq::empty()
    } else {
        let last = s.last();
        let before = snake_of(s.drop_last());
        if s.len() > 1 && is_ascii_upper(last) {
            before.push('_').push(last)
        } else {
            before.push(ascii_upper(last))
        }
    }
}

fn to_ascii_upper(c: char) -> (r: char)
    ensures
        r == ascii_upper(c),
{
    if 'a' <= c && c <= 'z' {
        ((c as u8) - 32u8) as char
    } else {
        c
    }
}

/// Relies on `String`'s `FromIterator<char>`: the string holds the characters
/// in order.
#[verifier::external_body]
pub(crate) fn string_from_chars(v: &Vec<char>) -> (r: String)
    ensures
        r@ == v@,
{
    v.iter().collect::<String>()
}

/// Convert CamelCase to SNAKE_CASE: each character upper-cased, words split
/// before each ASCII capital letter.
pub fn to_snake_case(in_str: &str) -> (r: String)
    ensures
        r@ == snake_of(in_str@),
{
    let n = in_str.unicode_len();
    let mut out: Vec<char> = Vec::new();
    let mut i: usize = 0;
    while i < n
        invariant
            n == in_str@.len(),
            i <= n,
            out@ == snake_of(in_str@.subrange(0, i as int)),
        decreases n - i,
    {
        let c = in_str.get_char(i);
        proof {
            let pre = in_str@.subrange(0, i as int + 1);
            assert(pre.drop_last() =~= in_str@.subrange(0, i as int));
            assert(pre.last() == c);
        }
        if i > 0 && 'A' <= c && c <= 'Z' {
            out.push('_');
            out.push(c);
        } else {
            let u = to_ascii_upper(c);
            out.push(u);
        }
        i = i + 1;
    }
    assert(in_str@.subrange(0, n as int) =~= in_str@);
    string_from_chars(&out)
}

impl Cfg {
    pub open spec fn spec_name(&self) -> Seq<char> {
        match self {
            Cfg::DatabaseUrl => "DatabaseUrl"@,
        }
    }

    /// The variant's name, as written in the source.
    pub fn name(&self) -> (r: String)
        ensures
            r@ == self.spec_name(),
    {
        match self {
            Cfg::DatabaseUrl => String::from_str("DatabaseUrl"),
        }
    }

    /// The environment variable that holds this value: the variant's name in
    /// SNAKE_CASE.
    pub fn key(&self) -> (r: String)
        ensures
            r@ == snake_of(self.spec_name()),
    {
        let name = self.name();
        to_snake_case(name.as_str())
    }
}

} // verus!
