//! The blocked-list text format and the request-side address format.
//!
//! The remote source serves newline-separated IPv4 CIDR lines such as
//! `10.0.0.0/8`.  A line is four decimal octets (each `0..=255`, no leading
//! zeros) joined by `.`, then `/`, then a prefix length (`0..=32`, no
//! leading zeros).  Lines that do not match this grammar are silently
//! dropped by the callers in this crate.  The request side hands in a
//! client address in the same dotted-decimal form, possibly followed by a
//! comma and further values, of which only the first is considered.
use vstd::prelude::*;

verus! {

/// Index of the first occurrence of `sep` in `s`, or `s.len()` if absent.
pub open spec fn first_sep(s: Seq<char>, sep: char) -> int
    decreases s.len(),
{
    if s.len() == 0 {
        0
    } else if s[0] == sep {
        0
    } else {
        1 + first_sep(s.skip(1), sep)
    }
}

proof fn lemma_first_sep(s: Seq<char>, sep: char)
    ensures
        0 <= first_sep(s, sep) <= s.len(),
        first_sep(s, sep) < s.len() ==> s[first_sep(s, sep)] == sep,
        forall|j: int| 0 <= j < first_sep(s, sep) ==> s[j] != sep,
    decreases s.len(),
{
    if s.len() == 0 {
    } else if s[0] == sep {
    } else {
        lemma_first_sep(s.skip(1), sep);
        assert forall|j: int| 0 <= j < first_sep(s, sep) implies s[j] != sep by {
            if j > 0 {
                assert(s.skip(1)[j - 1] == s[j]);
            }
        }
    }
}

/// `first_sep` is pinned down by its characteristic properties.
proof fn lemma_first_sep_is(s: Seq<char>, sep: char, k: int)
    requires
        0 <= k <= s.len(),
        forall|j: int| 0 <= j < k ==> s[j] != sep,
        k < s.len() ==> s[k] == sep,
    ensures
        first_sep(s, sep) == k,
    decreases s.len(),
{
    if k == 0 {
    } else {
        assert(s[0] != sep);
        assert forall|j: int| 0 <= j < k - 1 implies s.skip(1)[j] != sep by {
            assert(s.skip(1)[j] == s[j + 1]);
        }
        if k - 1 < s.skip(1).len() {
            assert(s.skip(1)[k - 1] == s[k]);
        }
        lemma_first_sep_is(s.skip(1), sep, k - 1);
    }
}

/// The fields of `s` delimited by `sep`: splitting never drops characters
/// and always yields at least one (possibly empty) field.
pub open spec fn spec_split(s: Seq<char>, sep: char) -> Seq<Seq<char>>
    decreases s.len(),
    via spec_split_decreases
{
    let i = first_sep(s, sep);
    if i == s.len() {
        seq![s]
    } else {
        seq![s.take(i)] + spec_split(s.skip(i + 1), sep)
    }
}

#[via_fn]
proof fn spec_split_decreases(s: Seq<char>, sep: char) {
    lemma_first_sep(s, sep);
}

/// Splits `s` at every occurrence of `sep`.
pub fn split_str(s: &str, sep: char) -> (r: Vec<String>)
    ensures
        r@.map_values(|t: String| t@) == spec_split(s@, sep),
        r@.len() >= 1,
{
    let n = s.unicode_len();
    let mut parts: Vec<String> = Vec::new();
    let mut start: usize = 0;
    let mut i: usize = 0;
    proof {
        assert(s@.skip(0) =~= s@);
        assert(parts@.map_values(|t: String| t@) + spec_split(s@, sep) =~= spec_split(s@, sep));
    }
    while i < n
        invariant
            start <= i <= n,
            n == s@.len(),
            forall|j: int| start <= j < i ==> s@[j] != sep,
            spec_split(s@, sep) == parts@.map_values(|t: String| t@) + spec_split(
                s@.skip(start as int),
                sep,
            ),
        decreases n - i,
    {
        let c = s.get_char(i);
        if c == sep {
            let tok = s.substring_char(start, i).to_owned();
            proof {
                let tail = s@.skip(start as int);
                let d: int = i as int - start as int;
                assert forall|j: int| 0 <= j < d implies tail[j] != sep by {
                    assert(tail[j] == s@[start + j]);
                }
                assert(tail[d] == s@[i as int]);
                lemma_first_sep_is(tail, sep, d);
                assert(tail.take(d) =~= s@.subrange(start as int, i as int));
                assert(tail.skip(d + 1) =~= s@.skip(i as int + 1));
                assert(spec_split(tail, sep) == seq![tok@] + spec_split(
                    s@.skip(i as int + 1),
                    sep,
                ));
                assert((parts@ + seq![tok]).map_values(|t: String| t@) =~= parts@.map_values(
                    |t: String| t@,
                ) + seq![tok@]);
            }
            parts.push(tok);
            start = i + 1;
        }
        i += 1;
    }
    let tok = s.substring_char(start, n).to_owned();
    proof {
        let tail = s@.skip(start as int);
        let d: int = n as int - start as int;
        assert forall|j: int| 0 <= j < d implies tail[j] != sep by {
            assert(tail[j] == s@[start + j]);
        }
        lemma_first_sep_is(tail, sep, d);
        assert(tail =~= s@.subrange(start as int, n as int));
        assert(spec_split(tail, sep) == seq![tok@]);
        assert((parts@ + seq![tok]).map_values(|t: String| t@) =~= parts@.map_values(
            |t: String| t@,
        ) + seq![tok@]);
    }
    parts.push(tok);
    parts
}

/// The first comma-separated value of a request attribute.
pub open spec fn first_token(s: Seq<char>) -> Seq<char> {
    spec_split(s, ',')[0]
}

/// ASCII decimal digit.
pub open spec fn is_digit(c: char) -> bool {
    48 <= c as int <= 57
}

pub open spec fn digit_val(c: char) -> int {
    c as int - 48
}

pub open spec fn all_digits(s: Seq<char>) -> bool {
    forall|i: int| 0 <= i < s.len() ==> is_digit(s[i])
}

/// Value of a decimal digit string, most significant digit first.
pub open spec fn dec_val(s: Seq<char>) -> int
    decreases s.len(),
{
    if s.len() == 0 {
        0
    } else {
        dec_val(s.drop_last()) * 10 + digit_val(s.last())
    }
}

proof fn lemma_dec_val_bound(s: Seq<char>)
    requires
        all_digits(s),
    ensures
        0 <= dec_val(s),
        s.len() <= 1 ==> dec_val(s) <= 9,
        s.len() <= 2 ==> dec_val(s) <= 99,
        s.len() <= 3 ==> dec_val(s) <= 999,
    decreases s.len(),
{
    if s.len() == 0 {
    } else {
        assert forall|i: int| 0 <= i < s.drop_last().len() implies is_digit(
            s.drop_last()[i],
        ) by {
            assert(s.drop_last()[i] == s[i]);
        }
        lemma_dec_val_bound(s.drop_last());
        assert(is_digit(s.last()));
    }
}

/// A decimal field of at most `max_digits` digits, without leading zeros,
/// whose value is at most `limit`.
pub open spec fn valid_decimal(s: Seq<char>, max_digits: int, limit: int) -> bool {
    &&& 1 <= s.len() <= max_digits
    &&& all_digits(s)
    &&& s.len() > 1 ==> s[0] != '0'
    &&& dec_val(s) <= limit
}

/// One address octet: `0..=255`, no leading zeros.
pub open spec fn valid_octet(s: Seq<char>) -> bool {
    valid_decimal(s, 3, 255)
}

/// A prefix length: `0..=32`, no leading zeros.
pub open spec fn valid_prefix_len(s: Seq<char>) -> bool {
    valid_decimal(s, 2, 32)
}

fn parse_decimal(s: &str, max_digits: usize, limit: u32) -> (r: Option<u32>)
    requires
        1 <= max_digits <= 3,
        limit <= 999,
    ensures
        r matches Some(v) ==> valid_decimal(s@, max_digits as int, limit as int) && v == dec_val(
            s@,
        ),
        r is None ==> !valid_decimal(s@, max_digits as int, limit as int),
{
    let n = s.unicode_len();
    if n < 1 || n > max_digits {
        return None;
    }
    if n > 1 && s.get_char(0) == '0' {
        return None;
    }
    let mut i: usize = 0;
    let mut v: u32 = 0;
    while i < n
        invariant
            i <= n,
            n == s@.len(),
            1 <= n <= 3,
            all_digits(s@.take(i as int)),
            v == dec_val(s@.take(i as int)),
            v <= 999,
        decreases n - i,
    {
        let c = s.get_char(i);
        let cv = c as u32;
        if cv < 48 || cv > 57 {
            proof {
                assert(!is_digit(s@[i as int]));
            }
            return None;
        }
        proof {
            assert forall|j: int| 0 <= j < i as int + 1 implies #[trigger] is_digit(
                s@.take(i as int + 1)[j],
            ) by {
                if j < i as int {
                    assert(s@.take(i as int + 1)[j] == s@.take(i as int)[j]);
                } else {
                    assert(s@.take(i as int + 1)[j] == s@[i as int]);
                }
            }
            assert(s@.take(i as int + 1).drop_last() =~= s@.take(i as int));
            assert(s@.take(i as int + 1).last() == s@[i as int]);
            lemma_dec_val_bound(s@.take(i as int + 1));
        }
        v = v * 10 + (cv - 48);
        i += 1;
    }
    proof {
        assert(s@.take(n as int) =~= s@);
    }
    if v > limit {
        return None;
    }
    Some(v)
}

/// A dotted-decimal IPv4 address as a 32-bit value, or `None` if `s` is
/// not exactly four valid octets joined by dots.
pub open spec fn spec_parse_ipv4(s: Seq<char>) -> Option<u32> {
    let ps = spec_split(s, '.');
    if ps.len() == 4 && valid_octet(ps[0]) && valid_octet(ps[1]) && valid_octet(ps[2])
        && valid_octet(ps[3]) {
        Some(
            (dec_val(ps[0]) * 0x1000000 + dec_val(ps[1]) * 0x10000 + dec_val(ps[2]) * 0x100
                + dec_val(ps[3])) as u32,
        )
    } else {
        None
    }
}

pub fn parse_ipv4(s: &str) -> (r: Option<u32>)
    ensures
        r == spec_parse_ipv4(s@),
{
    let parts = split_str(s, '.');
    if parts.len() != 4 {
        return None;
    }
    proof {
        assert(parts@[0]@ == spec_split(s@, '.')[0]);
        assert(parts@[1]@ == spec_split(s@, '.')[1]);
        assert(parts@[2]@ == spec_split(s@, '.')[2]);
        assert(parts@[3]@ == spec_split(s@, '.')[3]);
    }
    let o0 = match parse_decimal(parts[0].as_str(), 3, 255) {
        Some(v) => v,
        None => {
            return None;
        },
    };
    let o1 = match parse_decimal(parts[1].as_str(), 3, 255) {
        Some(v) => v,
        None => {
            return None;
        },
    };
    let o2 = match parse_decimal(parts[2].as_str(), 3, 255) {
        Some(v) => v,
        None => {
            return None;
        },
    };
    let o3 = match parse_decimal(parts[3].as_str(), 3, 255) {
        Some(v) => v,
        None => {
            return None;
        },
    };
    Some(o0 * 0x1000000 + o1 * 0x10000 + o2 * 0x100 + o3)
}

/// A CIDR line as `(address, prefix length)`, or `None` if `s` is not an
/// address, a slash and a prefix length.
pub open spec fn spec_parse_cidr(s: Seq<char>) -> Option<(u32, u32)> {
    let ps = spec_split(s, '/');
    if ps.len() == 2 && spec_parse_ipv4(ps[0]) is Some && valid_prefix_len(ps[1]) {
        Some((spec_parse_ipv4(ps[0])->Some_0, dec_val(ps[1]) as u32))
    } else {
        None
    }
}

pub fn parse_cidr(s: &str) -> (r: Option<(u32, u32)>)
    ensures
        r == spec_parse_cidr(s@),
        r matches Some(p) ==> p.1 <= 32,
{
    let parts = split_str(s, '/');
    if parts.len() != 2 {
        return None;
    }
    proof {
        assert(parts@[0]@ == spec_split(s@, '/')[0]);
        assert(parts@[1]@ == spec_split(s@, '/')[1]);
    }
    let addr = match parse_ipv4(parts[0].as_str()) {
        Some(v) => v,
        None => {
            return None;
        },
    };
    let len = match parse_decimal(parts[1].as_str(), 2, 32) {
        Some(v) => v,
        None => {
            return None;
        },
    };
    Some((addr, len))
}

} // verus!
