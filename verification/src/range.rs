//! The blocked-range membership structure.
//!
//! `RangeSet` wraps `iprange::IpRange<ipnet::Ipv4Net>`, the radix trie the
//! gateway uses to hold the blocked CIDR prefixes.  Its abstract contents
//! are the set of `(address, prefix length)` pairs that were added;
//! membership of an address is "some added prefix covers it".
use crate::parse::spec_parse_cidr;
use crate::parse::spec_split;
use crate::parse::parse_cidr;
use crate::parse::split_str;
use vstd::arithmetic::power2::pow2;
use vstd::prelude::*;

verus! {

/// The set of blocked CIDR prefixes, rebuilt wholesale on every refresh.
/// It holds the radix trie of `iprange`, which Verus does not look into;
/// everything stated about a `RangeSet` goes through `range_model`.
#[verifier::external_body]
pub struct RangeSet {
    inner: iprange::IpRange<ipnet::Ipv4Net>,
}

/// The set of `(address, prefix length)` pairs added to the trie so far.
pub uninterp spec fn range_model(r: RangeSet) -> Set<(u32, u32)>;

/// An address `a` lies in the prefix `p` when the top `p.1` bits of `a`
/// and of `p.0` agree; the remaining (host) bits of `p.0` are ignored.
pub open spec fn prefix_contains(p: (u32, u32), a: u32) -> bool {
    p.1 <= 32 && a as int / pow2((32 - p.1) as nat) as int == p.0 as int / pow2(
        (32 - p.1) as nat,
    ) as int
}

/// An address is blocked by a prefix set when some prefix covers it.
pub open spec fn blocked_by(ps: Set<(u32, u32)>, a: u32) -> bool {
    exists|p: (u32, u32)| ps.contains(p) && prefix_contains(p, a)
}

/// Relies on `iprange::IpRange::new`: the fresh trie holds no network.
#[verifier::external_body]
fn range_new() -> (r: RangeSet)
    ensures
        range_model(r) == Set::<(u32, u32)>::empty(),
{
    RangeSet { inner: iprange::IpRange::new() }
}

/// Relies on `iprange::IpRange::add`: inserts the network keyed by the
/// first `len` bits of `addr`.  The trie may absorb networks covered by a
/// broader one, which leaves membership — the only observation made of
/// it — exactly that of the grown set.
#[verifier::external_body]
fn range_add(r: &mut RangeSet, addr: u32, len: u32)
    requires
        len <= 32,
    ensures
        range_model(*final(r)) == range_model(*old(r)).insert((addr, len)),
{
    r.inner.add(ipnet::Ipv4Net::new(addr.into(), len as u8).unwrap());
}

/// Relies on `iprange::IpRange::contains` (via `supernet`): true when a
/// stored network's prefix bits are a prefix of the address's bits.
#[verifier::external_body]
fn range_contains(r: &RangeSet, addr: u32) -> (b: bool)
    ensures
        b == blocked_by(range_model(*r), addr),
{
    r.inner.contains(&addr)
}

/// The prefixes parsed from the lines of a blocked-list text; lines that
/// fail to parse contribute nothing.
pub open spec fn lines_prefixes(lines: Seq<Seq<char>>) -> Set<(u32, u32)> {
    Set::new(
        |p: (u32, u32)|
            exists|i: int| 0 <= i < lines.len() && spec_parse_cidr(#[trigger] lines[i]) == Some(p),
    )
}

pub open spec fn text_prefixes(s: Seq<char>) -> Set<(u32, u32)> {
    lines_prefixes(spec_split(s, '\n'))
}

impl RangeSet {
    /// Abstract contents: the prefixes of the parsed lines.
    pub open spec fn prefixes(self) -> Set<(u32, u32)> {
        range_model(self)
    }

    /// Parses each newline-separated line of `text` as a CIDR prefix and
    /// collects the results; malformed lines are silently dropped.
    pub fn build(text: &str) -> (r: RangeSet)
        ensures
            r.prefixes() == text_prefixes(text@),
    {
        let lines = split_str(text, '\n');
        let ghost line_views = lines@.map_values(|t: String| t@);
        let mut r = range_new();
        let mut k: usize = 0;
        proof {
            assert(range_model(r) =~= lines_prefixes(line_views.take(0)));
        }
        while k < lines.len()
            invariant
                k <= lines.len(),
                line_views == lines@.map_values(|t: String| t@),
                range_model(r) == lines_prefixes(line_views.take(k as int)),
            decreases lines.len() - k,
        {
            proof {
                assert(line_views[k as int] == lines@[k as int]@);
            }
            match parse_cidr(lines[k].as_str()) {
                Some(p) => {
                    range_add(&mut r, p.0, p.1);
                    proof {
                        lemma_lines_prefixes_step(line_views, k as int);
                        assert(range_model(r) =~= lines_prefixes(line_views.take(k as int + 1)));
                    }
                },
                None => {
                    proof {
                        lemma_lines_prefixes_step(line_views, k as int);
                        assert(range_model(r) =~= lines_prefixes(line_views.take(k as int + 1)));
                    }
                },
            }
            k += 1;
        }
        proof {
            assert(line_views.take(lines@.len() as int) =~= line_views);
        }
        r
    }

    /// True iff `addr` falls in at least one stored prefix.
    pub fn contains(&self, addr: u32) -> (r: bool)
        ensures
            r == blocked_by(self.prefixes(), addr),
    {
        range_contains(self, addr)
    }
}

/// Extending the line window by one line adds exactly that line's prefix,
/// if it has one.
proof fn lemma_lines_prefixes_step(lines: Seq<Seq<char>>, k: int)
    requires
        0 <= k < lines.len(),
    ensures
        spec_parse_cidr(lines[k]) matches Some(p) ==> lines_prefixes(lines.take(k + 1))
            == lines_prefixes(lines.take(k)).insert(p),
        spec_parse_cidr(lines[k]) is None ==> lines_prefixes(lines.take(k + 1)) == lines_prefixes(
            lines.take(k),
        ),
{
    let pre = lines.take(k);
    let ext = lines.take(k + 1);
    assert(forall|i: int| 0 <= i < k ==> ext[i] == #[trigger] pre[i]);
    assert(ext[k] == lines[k]);
    match spec_parse_cidr(lines[k]) {
        Some(p) => {
            assert forall|q: (u32, u32)| lines_prefixes(ext).contains(q) implies lines_prefixes(
                pre,
            ).insert(p).contains(q) by {
                let i = choose|i: int|
                    0 <= i < ext.len() && spec_parse_cidr(#[trigger] ext[i]) == Some(q);
                if i < k {
                    assert(spec_parse_cidr(pre[i]) == Some(q));
                }
            }
            assert forall|q: (u32, u32)| lines_prefixes(pre).insert(p).contains(q)
                implies lines_prefixes(ext).contains(q) by {
                if q == p {
                    assert(spec_parse_cidr(ext[k]) == Some(q));
                } else {
                    let i = choose|i: int|
                        0 <= i < pre.len() && spec_parse_cidr(#[trigger] pre[i]) == Some(q);
                    assert(spec_parse_cidr(ext[i]) == Some(q));
                }
            }
            assert(lines_prefixes(ext) =~= lines_prefixes(pre).insert(p));
        },
        None => {
            assert forall|q: (u32, u32)| lines_prefixes(ext).contains(q) implies lines_prefixes(
                pre,
            ).contains(q) by {
                let i = choose|i: int|
                    0 <= i < ext.len() && spec_parse_cidr(#[trigger] ext[i]) == Some(q);
                assert(i != k);
                assert(spec_parse_cidr(pre[i]) == Some(q));
            }
            assert forall|q: (u32, u32)| lines_prefixes(pre).contains(q) implies lines_prefixes(
                ext,
            ).contains(q) by {
                let i = choose|i: int|
                    0 <= i < pre.len() && spec_parse_cidr(#[trigger] pre[i]) == Some(q);
                assert(spec_parse_cidr(ext[i]) == Some(q));
            }
            assert(lines_prefixes(ext) =~= lines_prefixes(pre));
        },
    }
}

/// Membership in a parsed blocked list does not depend on the order of
/// its lines nor on duplicate lines: texts whose line sets agree block
/// exactly the same addresses.
pub proof fn lemma_contains_order_independent(t1: Seq<char>, t2: Seq<char>, a: u32)
    requires
        spec_split(t1, '\n').to_set() == spec_split(t2, '\n').to_set(),
    ensures
        text_prefixes(t1) == text_prefixes(t2),
        blocked_by(text_prefixes(t1), a) == blocked_by(text_prefixes(t2), a),
{
    let l1 = spec_split(t1, '\n');
    let l2 = spec_split(t2, '\n');
    assert forall|q: (u32, u32)| lines_prefixes(l1).contains(q) implies lines_prefixes(
        l2,
    ).contains(q) by {
        let i = choose|i: int| 0 <= i < l1.len() && spec_parse_cidr(#[trigger] l1[i]) == Some(q);
        assert(l1.to_set().contains(l1[i]));
        assert(l2.to_set().contains(l1[i]));
        let j = choose|j: int| 0 <= j < l2.len() && l2[j] == l1[i];
        assert(spec_parse_cidr(l2[j]) == Some(q));
    }
    assert forall|q: (u32, u32)| lines_prefixes(l2).contains(q) implies lines_prefixes(
        l1,
    ).contains(q) by {
        let i = choose|i: int| 0 <= i < l2.len() && spec_parse_cidr(#[trigger] l2[i]) == Some(q);
        assert(l2.to_set().contains(l2[i]));
        assert(l1.to_set().contains(l2[i]));
        let j = choose|j: int| 0 <= j < l1.len() && l1[j] == l2[i];
        assert(spec_parse_cidr(l1[j]) == Some(q));
    }
    assert(lines_prefixes(l1) =~= lines_prefixes(l2));
}

} // verus!
