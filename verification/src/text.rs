//! Parsing of the `/port_udp` response body: the body is trimmed of
//! surrounding whitespace and read as a signed 32-bit integer; anything that
//! does not parse is normalized to the sentinel value `0` ("not yet
//! assigned").

use vstd::prelude::*;
use vstd::string::StrSliceExecFns;

verus! {

/// The characters stripped from either end of the body: the Unicode
/// `White_Space` set, which is what `str::trim` removes.
pub open spec fn is_space(c: char) -> bool {
    let u = c as u32;
    u == 0x09 || u == 0x0a || u == 0x0b || u == 0x0c || u == 0x0d || u == 0x20 || u == 0x85
        || u == 0xa0 || u == 0x1680 || (0x2000 <= u && u <= 0x200a) || u == 0x2028 || u == 0x2029
        || u == 0x202f || u == 0x205f || u == 0x3000
}

fn is_space_char(c: char) -> (b: bool)
    ensures
        b == is_space(c),
{
    let u = c as u32;
    u == 0x09 || u == 0x0a || u == 0x0b || u == 0x0c || u == 0x0d || u == 0x20 || u == 0x85
        || u == 0xa0 || u == 0x1680 || (0x2000 <= u && u <= 0x200a) || u == 0x2028 || u == 0x2029
        || u == 0x202f || u == 0x205f || u == 0x3000
}

/// An ASCII decimal digit, the only digits `i32::from_str` accepts.
pub open spec fn is_digit(c: char) -> bool {
    0x30 <= c as u32 && c as u32 <= 0x39
}

pub open spec fn digit_val(c: char) -> int {
    c as u32 - 0x30
}

/// The body with leading whitespace removed.
pub open spec fn trim_start(s: Seq<char>) -> Seq<char>
    decreases s.len(),
{
    if s.len() > 0 && is_space(s[0]) {
        trim_start(s.drop_first())
    } else {
        s
    }
}

/// The body with trailing whitespace removed.
pub open spec fn trim_end(s: Seq<char>) -> Seq<char>
    decreases s.len(),
{
    if s.len() > 0 && is_space(s.last()) {
        trim_end(s.drop_last())
    } else {
        s
    }
}

/// The body with surrounding whitespace removed, as `str::trim` leaves it.
pub open spec fn trimmed(s: Seq<char>) -> Seq<char> {
    trim_end(trim_start(s))
}

pub open spec fn all_digits(s: Seq<char>) -> bool {
    forall|i: int| 0 <= i < s.len() ==> is_digit(s[i])
}

/// The value of a sequence of decimal digits, most significant first.
pub open spec fn digits_val(s: Seq<char>) -> int
    decreases s.len(),
{
    if s.len() == 0 {
        0
    } else {
        digits_val(s.drop_last()) * 10 + digit_val(s.last())
    }
}

/// The digits of an integer literal, after any single leading sign.
pub open spec fn unsigned_part(t: Seq<char>) -> Seq<char> {
    if t.len() > 0 && (t[0] == '+' || t[0] == '-') {
        t.drop_first()
    } else {
        t
    }
}

pub open spec fn is_negative_literal(t: Seq<char>) -> bool {
    t.len() > 0 && t[0] == '-'
}

/// The shape `i32::from_str` accepts: an optional sign followed by at least
/// one ASCII digit, and nothing else.
pub open spec fn is_int_literal(t: Seq<char>) -> bool {
    unsigned_part(t).len() > 0 && all_digits(unsigned_part(t))
}

pub open spec fn int_literal_val(t: Seq<char>) -> int {
    if is_negative_literal(t) {
        -digits_val(unsigned_part(t))
    } else {
        digits_val(unsigned_part(t))
    }
}

/// The value the poller reports for a response body: the trimmed body read
/// as a signed 32-bit integer, with every failure to parse (wrong shape or
/// out of range) normalized to the sentinel `0`.
pub open spec fn port_of_body(s: Seq<char>) -> int {
    let t = trimmed(s);
    if is_int_literal(t) && i32::MIN <= int_literal_val(t) && int_literal_val(t) <= i32::MAX {
        int_literal_val(t)
    } else {
        0
    }
}

/// The reported value always fits in an `i32`.
pub proof fn lemma_port_of_body_in_range(s: Seq<char>)
    ensures
        i32::MIN <= port_of_body(s) <= i32::MAX,
{
}

proof fn lemma_trim_start_at(s: Seq<char>, k: int)
    requires
        0 <= k <= s.len(),
        forall|i: int| 0 <= i < k ==> is_space(s[i]),
        k < s.len() ==> !is_space(s[k]),
    ensures
        trim_start(s) == s.subrange(k, s.len() as int),
    decreases k,
{
    if k == 0 {
        assert(s.subrange(0, s.len() as int) =~= s);
    } else {
        let t = s.drop_first();
        assert(forall|i: int| 0 <= i < k - 1 ==> is_space(t[i]));
        lemma_trim_start_at(t, k - 1);
        assert(t.subrange(k - 1, t.len() as int) =~= s.subrange(k, s.len() as int));
    }
}

proof fn lemma_trim_end_at(s: Seq<char>, k: int)
    requires
        0 <= k <= s.len(),
        forall|i: int| k <= i < s.len() ==> is_space(s[i]),
        k > 0 ==> !is_space(s[k - 1]),
    ensures
        trim_end(s) == s.subrange(0, k),
    decreases s.len(),
{
    if k == s.len() {
        assert(s.subrange(0, k) =~= s);
    } else {
        let t = s.drop_last();
        assert(forall|i: int| k <= i < t.len() ==> is_space(t[i]));
        lemma_trim_end_at(t, k);
        assert(t.subrange(0, k) =~= s.subrange(0, k));
    }
}

/// Reads a `/port_udp` response body exactly as the poller does: trim the
/// surrounding whitespace, parse the rest as an `i32`, and report `0` for
/// anything that does not parse.
pub fn parse_port_body(s: &str) -> (p: i32)
    ensures
        p as int == port_of_body(s@),
{
    let ghost sv = s@;
    let n: usize = s.unicode_len();
    let mut lo: usize = 0;
    while lo < n && is_space_char(s.get_char(lo))
        invariant
            0 <= lo <= n,
            n == sv.len(),
            sv == s@,
            forall|i: int| 0 <= i < lo ==> is_space(sv[i]),
        decreases n - lo,
    {
        lo = lo + 1;
    }
    let mut hi: usize = n;
    while hi > lo && is_space_char(s.get_char(hi - 1))
        invariant
            lo <= hi <= n,
            n == sv.len(),
            sv == s@,
            forall|i: int| 0 <= i < lo ==> is_space(sv[i]),
            forall|i: int| hi <= i < n ==> is_space(sv[i]),
        decreases hi,
    {
        hi = hi - 1;
    }
    let ghost t = sv.subrange(lo as int, hi as int);
    proof {
        lemma_trim_start_at(sv, lo as int);
        let st = sv.subrange(lo as int, n as int);
        assert(forall|i: int| hi - lo <= i < st.len() ==> is_space(st[i]));
        lemma_trim_end_at(st, hi - lo);
        assert(st.subrange(0, hi - lo) =~= t);
        assert(trimmed(sv) == t);
    }
    if lo == hi {
        proof {
            assert(unsigned_part(t).len() == 0);
        }
        return 0;
    }
    let first = s.get_char(lo);
    let neg = first == '-';
    let mut ds: usize = lo;
    if first == '-' || first == '+' {
        ds = lo + 1;
    }
    let ghost u = sv.subrange(ds as int, hi as int);
    proof {
        if first == '-' || first == '+' {
            assert(t.drop_first() =~= u);
        }
        assert(unsigned_part(t) == u);
    }
    if ds == hi {
        proof {
            assert(unsigned_part(t).len() == 0);
        }
        return 0;
    }
    let mut i: usize = ds;
    let mut acc: u64 = 0;
    let mut over: bool = false;
    while i < hi
        invariant
            ds <= i <= hi <= n,
            n == sv.len(),
            sv == s@,
            u == sv.subrange(ds as int, hi as int),
            trimmed(sv) == t,
            unsigned_part(t) == u,
            forall|k: int| ds <= k < i ==> is_digit(sv[k]),
            !over ==> acc <= 0x8000_0000u64 && acc as int == digits_val(
                sv.subrange(ds as int, i as int),
            ),
            over ==> digits_val(sv.subrange(ds as int, i as int)) > 0x8000_0000,
        decreases hi - i,
    {
        let c = s.get_char(i);
        let cu = c as u32;
        if !(0x30 <= cu && cu <= 0x39) {
            proof {
                assert(u[i - ds] == sv[i as int]);
                assert(!is_digit(u[i - ds]));
                assert(!all_digits(u));
                assert(!is_int_literal(t));
                assert(port_of_body(sv) == 0);
            }
            return 0;
        }
        let d: u64 = (cu - 0x30) as u64;
        proof {
            assert(sv.subrange(ds as int, i + 1).drop_last() =~= sv.subrange(ds as int, i as int));
            assert(sv.subrange(ds as int, i + 1).last() == sv[i as int]);
            assert(digits_val(sv.subrange(ds as int, i + 1)) == digits_val(
                sv.subrange(ds as int, i as int),
            ) * 10 + digit_val(sv[i as int]));
        }
        if !over {
            acc = acc * 10 + d;
            if acc > 0x8000_0000 {
                over = true;
            }
        }
        i = i + 1;
    }
    proof {
        assert(forall|k: int| 0 <= k < u.len() ==> u[k] == sv[ds + k] && is_digit(u[k]));
        assert(all_digits(u));
        assert(is_int_literal(t));
        assert(sv.subrange(ds as int, i as int) =~= u);
        assert(is_negative_literal(t) == neg);
    }
    if over {
        proof {
            assert(digits_val(u) > 0x8000_0000);
        }
        return 0;
    }
    if neg {
        if acc == 0x8000_0000 {
            return i32::MIN;
        }
        proof {
            assert(int_literal_val(t) == -(acc as int));
        }
        return -(acc as i32);
    }
    if acc > 0x7fff_ffff {
        proof {
            assert(int_literal_val(t) > i32::MAX);
        }
        return 0;
    }
    acc as i32
}

} // verus!
