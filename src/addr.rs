//! Splitting a `host:port` text into its parts.
use vstd::prelude::*;

verus! {

broadcast use vstd::string::group_string_axioms;

/// Port used when an address gives none, or one that is not a port number.
pub const DEFAULT_PORT: u16 = 8080;

/// Whether `c` is an ASCII decimal digit.
pub open spec fn is_digit(c: char) -> bool {
    '0' <= c && c <= '9'
}

/// The value of the decimal digits `s`, most significant first.
pub open spec fn digits_value(s: Seq<char>) -> nat
    decreases s.len(),
{
    if s.len() == 0 {
        0
    } else {
        digits_value(s.drop_last()) * 10 + (s.last() as nat - '0' as nat) as nat
    }
}

/// What reading `s` as a `u16` gives: an optional `+`, then one or more
/// decimal digits whose value fits.
pub open spec fn parse_u16_spec(s: Seq<char>) -> Option<u16> {
    let t = unsigned_part(s);
    if t.len() > 0 && all_digits(t) && digits_value(t) <= u16::MAX {
        Some(digits_value(t) as u16)
    } else {
        None
    }
}

/// `s` without a leading `+`.
pub open spec fn unsigned_part(s: Seq<char>) -> Seq<char> {
    if s.len() > 0 && s[0] == '+' {
        s.drop_first()
    } else {
        s
    }
}

/// Whether every character of `s` is a decimal digit.
pub open spec fn all_digits(s: Seq<char>) -> bool {
    forall|i: int| 0 <= i < s.len() ==> is_digit(#[trigger] s[i])
}

/// Index of the first `:` in `s`, if any.
pub open spec fn first_colon(s: Seq<char>) -> Option<int> {
    if exists|i: int| 0 <= i < s.len() && s[i] == ':' {
        Some(choose|i: int| 0 <= i < s.len() && s[i] == ':' && forall|j: int| 0 <= j < i ==> s[j] != ':')
    } else {
        None
    }
}

proof fn lemma_digits_grow(s: Seq<char>, k: int)
    requires
        0 <= k <= s.len(),
        forall|i: int| 0 <= i < s.len() ==> is_digit(#[trigger] s[i]),
    ensures
        digits_value(s.subrange(0, k)) <= digits_value(s),
    decreases s.len() - k,
{
    if k < s.len() {
        lemma_digits_grow(s, k + 1);
        let p = s.subrange(0, k + 1);
        assert(p.drop_last() =~= s.subrange(0, k));
    } else {
        assert(s.subrange(0, k) =~= s);
    }
}

/// Reads `s` as a `u16` the way the standard library does.
pub fn parse_u16(s: &str) -> (r: Option<u16>)
    ensures
        r == parse_u16_spec(s@),
{
    let len = s.unicode_len();
    let mut start: usize = 0;
    if len > 0 && s.get_char(0) == '+' {
        start = 1;
    }
    let ghost t = unsigned_part(s@);
    assert(t =~= s@.subrange(start as int, len as int));
    if start == len {
        return None;
    }
    let mut value: u32 = 0;
    let mut i: usize = start;
    while i < len
        invariant
            start <= i <= len,
            len == s@.len(),
            start < len,
            t == s@.subrange(start as int, len as int),
            t == unsigned_part(s@),
            forall|j: int| start <= j < i ==> is_digit(#[trigger] s@[j]),
            value == digits_value(s@.subrange(start as int, i as int)),
            value <= u16::MAX,
        decreases len - i,
    {
        let c = s.get_char(i);
        if !('0' <= c && c <= '9') {
            assert(t[i - start] == s@[i as int]);
            assert(!is_digit(t[i - start]));
            assert(!all_digits(t));
            return None;
        }
        let ghost before = s@.subrange(start as int, i as int);
        let next = value * 10 + (c as u32 - '0' as u32);
        assert(s@.subrange(start as int, i + 1).drop_last() =~= before);
        assert(s@.subrange(start as int, i + 1).last() == c);
        assert(next == digits_value(s@.subrange(start as int, i + 1)));
        if next > 65535 {
            proof {
                let k = (i + 1 - start) as int;
                if all_digits(t) {
                    lemma_digits_grow(t, k);
                    assert(t.subrange(0, k) =~= s@.subrange(start as int, i + 1));
                    assert(digits_value(t) > u16::MAX);
                }
            }
            return None;
        }
        value = next;
        i = i + 1;
    }
    assert(s@.subrange(start as int, len as int) == t);
    Some(value as u16)
}

/// Splits `addr` at its first `:` into host and port. Without a `:`, the
/// whole text is the host; a port that does not read as a `u16` becomes
/// the default port.
pub fn parse_addr(addr: &str) -> (r: (String, u16))
    ensures
        first_colon(addr@) is None ==> r.0@ == addr@ && r.1 == DEFAULT_PORT,
        first_colon(addr@) matches Some(i) ==> r.0@ == addr@.subrange(0, i) && r.1 == match parse_u16_spec(
            addr@.subrange(i + 1, addr@.len() as int),
        ) {
            Some(p) => p,
            None => DEFAULT_PORT,
        },
{
    let len = addr.unicode_len();
    let mut i: usize = 0;
    while i < len
        invariant
            i <= len,
            len == addr@.len(),
            forall|j: int| 0 <= j < i ==> addr@[j] != ':',
        decreases len - i,
    {
        if addr.get_char(i) == ':' {
            let host = addr.substring_char(0, i).to_string();
            let rest = addr.substring_char(i + 1, len);
            let port = match parse_u16(rest) {
                Some(p) => p,
                None => DEFAULT_PORT,
            };
            proof {
                let c = choose|k: int| 0 <= k < addr@.len() && addr@[k] == ':' && forall|j: int| 0 <= j < k ==> addr@[j] != ':';
                assert(c == i) by {
                    if c < i {
                        assert(addr@[c] != ':');
                    } else if c > i {
                        assert(addr@[i as int] == ':');
                    }
                }
            }
            return (host, port);
        }
        i = i + 1;
    }
    (addr.to_string(), DEFAULT_PORT)
}

} // verus!
