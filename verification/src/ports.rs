//! Sets of TCP ports.
//!
//! A set of ports is a `HashSet<u16>`; its model is `Set<u16>`. Where an order
//! is needed, the ports are taken in ascending order.

use vstd::prelude::*;
use std::collections::HashSet;

verus! {

/// The members of `s` below `n`, in ascending order.
pub open spec fn members_below(s: Set<u16>, n: int) -> Seq<u16>
    decreases n,
{
    if n <= 0 {
        Seq::<u16>::empty()
    } else {
        let rest = members_below(s, n - 1);
        if s.contains((n - 1) as u16) {
            rest.push((n - 1) as u16)
        } else {
            rest
        }
    }
}

/// The members of `s` in ascending order.
pub open spec fn ascending(s: Set<u16>) -> Seq<u16> {
    members_below(s, 0x1_0000)
}

/// `members_below` lists exactly the members below the bound, each once and in
/// increasing order.
pub proof fn lemma_members_below(s: Set<u16>, n: int)
    requires
        0 <= n <= 0x1_0000,
    ensures
        forall|p: u16| #[trigger] members_below(s, n).contains(p) <==> s.contains(p) && p < n,
        forall|i: int, j: int|
            0 <= i < j < members_below(s, n).len() ==> members_below(s, n)[i] < members_below(
                s,
                n,
            )[j],
    decreases n,
{
    if n > 0 {
        lemma_members_below(s, n - 1);
        let rest = members_below(s, n - 1);
        let last = (n - 1) as u16;
        if s.contains(last) {
            let all = rest.push(last);
            assert forall|p: u16| #[trigger] all.contains(p) <==> s.contains(p) && p < n by {
                if all.contains(p) {
                    let i = choose|i: int| 0 <= i < all.len() && all[i] == p;
                    if i < rest.len() {
                        assert(rest[i] == p);
                        assert(rest.contains(p));
                    }
                }
                if s.contains(p) && p < n {
                    if p == last {
                        assert(all[rest.len() as int] == p);
                    } else {
                        assert(rest.contains(p));
                        let i = choose|i: int| 0 <= i < rest.len() && rest[i] == p;
                        assert(all[i] == p);
                    }
                }
            }
            assert forall|i: int, j: int| 0 <= i < j < all.len() implies all[i] < all[j] by {
                if j == rest.len() {
                    assert(rest[i] == all[i]);
                    assert(rest.contains(all[i]));
                }
            }
        }
    }
}

/// `ascending` lists exactly the members of the set.
pub proof fn lemma_ascending(s: Set<u16>)
    ensures
        forall|p: u16| #[trigger] ascending(s).contains(p) <==> s.contains(p),
        forall|i: int, j: int| 0 <= i < j < ascending(s).len() ==> ascending(s)[i] < ascending(s)[j],
{
    lemma_members_below(s, 0x1_0000);
}

/// The ports of `a` that are not in `b`, in ascending order.
pub fn difference(a: &HashSet<u16>, b: &HashSet<u16>) -> (out: Vec<u16>)
    ensures
        out@ == ascending(a@.difference(b@)),
{
    let mut out: Vec<u16> = Vec::new();
    let mut p: u32 = 0;
    while p < 0x1_0000
        invariant
            p <= 0x1_0000,
            out@ == members_below(a@.difference(b@), p as int),
        decreases 0x1_0000 - p,
    {
        let q: u16 = p as u16;
        if a.contains(&q) && !b.contains(&q) {
            out.push(q);
        }
        p += 1;
    }
    out
}

/// Adds every port of `from` to `into`.
pub fn extend(into: &mut HashSet<u16>, from: &HashSet<u16>)
    ensures
        final(into)@ == old(into)@.union(from@),
{
    let ghost first = into@;
    let mut p: u32 = 0;
    assert(into@ =~= first.union(Set::new(|q: u16| from@.contains(q) && (q as int) < 0)));
    while p < 0x1_0000
        invariant
            p <= 0x1_0000,
            into@ == first.union(Set::new(|q: u16| from@.contains(q) && (q as int) < p as int)),
        decreases 0x1_0000 - p,
    {
        let q: u16 = p as u16;
        if from.contains(&q) {
            into.insert(q);
        }
        p += 1;
        assert(into@ =~= first.union(
            Set::new(|q: u16| from@.contains(q) && (q as int) < p as int),
        ));
    }
    assert(into@ =~= first.union(from@));
}

/// The ports of `listening` that policy lets be forwarded: at least `min_port`
/// and not excluded.
pub open spec fn eligible(listening: Set<u16>, min_port: u16, excluded: Set<u16>) -> Set<u16> {
    Set::new(|p: u16| listening.contains(p) && p >= min_port && !excluded.contains(p))
}

/// Applies the policy filters to the ports found listening.
pub fn eligible_ports(listening: &HashSet<u16>, min_port: u16, excluded: &HashSet<u16>) -> (out:
    HashSet<u16>)
    ensures
        out@ == eligible(listening@, min_port, excluded@),
{
    let mut out: HashSet<u16> = HashSet::new();
    let mut p: u32 = min_port as u32;
    assert(out@ =~= Set::new(
        |q: u16| eligible(listening@, min_port, excluded@).contains(q) && (q as int) < p as int,
    ));
    while p < 0x1_0000
        invariant
            min_port <= p <= 0x1_0000,
            out@ == Set::new(
                |q: u16|
                    eligible(listening@, min_port, excluded@).contains(q) && (q as int) < p as int,
            ),
        decreases 0x1_0000 - p,
    {
        let q: u16 = p as u16;
        if listening.contains(&q) && !excluded.contains(&q) {
            out.insert(q);
        }
        p += 1;
        assert(out@ =~= Set::new(
            |q: u16| eligible(listening@, min_port, excluded@).contains(q) && (q as int) < p as int,
        ));
    }
    assert(out@ =~= eligible(listening@, min_port, excluded@));
    out
}

} // verus!
