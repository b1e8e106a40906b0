//! Host lists: strings kept in strictly ascending lexicographic order, so
//! that a list holds each of its members once and a set of hosts has exactly
//! one list.

use crate::text::{lemma_lex_lt_irreflexive, lemma_lex_lt_total, lemma_lex_lt_transitive, lex_lt, str_lt};
use vstd::prelude::*;

verus! {

/// The character sequences of a list of strings, in the same order.
pub open spec fn texts(strings: Seq<String>) -> Seq<Seq<char>> {
    strings.map_values(|s: String| s@)
}

/// Each entry comes strictly before every later one.
pub open spec fn strictly_sorted(hosts: Seq<Seq<char>>) -> bool {
    forall|i: int, j: int|
        0 <= i < j < hosts.len() ==> lex_lt(#[trigger] hosts[i], #[trigger] hosts[j])
}

/// A strictly sorted list holds no string twice.
pub proof fn lemma_sorted_is_duplicate_free(hosts: Seq<Seq<char>>)
    requires
        strictly_sorted(hosts),
    ensures
        forall|i: int, j: int|
            0 <= i < hosts.len() && 0 <= j < hosts.len() && i != j ==> #[trigger] hosts[i]
                != #[trigger] hosts[j],
{
    assert forall|i: int, j: int|
        0 <= i < hosts.len() && 0 <= j < hosts.len() && i != j implies #[trigger] hosts[i]
        != #[trigger] hosts[j] by {
        lemma_lex_lt_irreflexive(hosts[i]);
        if i < j {
            assert(lex_lt(hosts[i], hosts[j]));
        } else {
            assert(lex_lt(hosts[j], hosts[i]));
        }
    }
}

/// The first entry of a strictly sorted list is its least member, so two such
/// lists with the same members begin alike.
proof fn lemma_same_members_same_head(a: Seq<Seq<char>>, b: Seq<Seq<char>>)
    requires
        strictly_sorted(a),
        strictly_sorted(b),
        forall|h: Seq<char>| a.contains(h) <==> b.contains(h),
        a.len() > 0,
    ensures
        b.len() > 0,
        a[0] == b[0],
{
    assert(a.contains(a[0]));
    let k = choose|k: int| 0 <= k < b.len() && b[k] == a[0];
    assert(b.contains(b[0]));
    let m = choose|m: int| 0 <= m < a.len() && a[m] == b[0];
    if k > 0 {
        assert(lex_lt(b[0], b[k]));
        if m > 0 {
            assert(lex_lt(a[0], a[m]));
            lemma_lex_lt_transitive(a[0], b[0], a[0]);
        }
        lemma_lex_lt_irreflexive(a[0]);
    }
}

/// A set of strings has at most one strictly sorted list: two such lists with
/// the same members are the same list.
pub proof fn lemma_sorted_list_is_unique(a: Seq<Seq<char>>, b: Seq<Seq<char>>)
    requires
        strictly_sorted(a),
        strictly_sorted(b),
        forall|h: Seq<char>| a.contains(h) <==> b.contains(h),
    ensures
        a == b,
    decreases a.len(),
{
    if a.len() == 0 {
        if b.len() > 0 {
            assert(b.contains(b[0]));
        }
        assert(a =~= b);
    } else {
        lemma_same_members_same_head(a, b);
        let ra = a.drop_first();
        let rb = b.drop_first();
        assert forall|h: Seq<char>| ra.contains(h) <==> rb.contains(h) by {
            lemma_lex_lt_irreflexive(h);
            if ra.contains(h) {
                let i = choose|i: int| 0 <= i < ra.len() && ra[i] == h;
                assert(lex_lt(a[0], a[i + 1]));
                assert(a.contains(h));
                let k = choose|k: int| 0 <= k < b.len() && b[k] == h;
                assert(rb[k - 1] == h);
            }
            if rb.contains(h) {
                let i = choose|i: int| 0 <= i < rb.len() && rb[i] == h;
                assert(lex_lt(b[0], b[i + 1]));
                assert(b.contains(h));
                let k = choose|k: int| 0 <= k < a.len() && a[k] == h;
                assert(ra[k - 1] == h);
            }
        }
        lemma_sorted_list_is_unique(ra, rb);
        assert(a =~= seq![a[0]] + ra);
        assert(b =~= seq![b[0]] + rb);
    }
}

/// Adds `host` to a host list, at the place that its order gives it; a host
/// that the list holds already is not added again.
pub fn insert_host(hosts: &mut Vec<String>, host: String)
    requires
        strictly_sorted(texts(old(hosts)@)),
    ensures
        strictly_sorted(texts(final(hosts)@)),
        forall|h: Seq<char>|
            texts(final(hosts)@).contains(h) <==> (texts(old(hosts)@).contains(h) || h == host@),
{
    let mut at: usize = 0;
    while at < hosts.len() && str_lt(hosts[at].as_str(), host.as_str())
        invariant
            at <= hosts.len(),
            *hosts == *old(hosts),
            forall|k: int| 0 <= k < at ==> lex_lt(#[trigger] texts(hosts@)[k], host@),
        decreases hosts.len() - at,
    {
        at = at + 1;
    }
    let ghost before = texts(hosts@);
    if at < hosts.len() && hosts[at] == host {
        assert(before[at as int] == host@);
        assert forall|h: Seq<char>| before.contains(h) || h == host@ implies before.contains(
            h,
        ) by {}
    } else {
        hosts.insert(at, host);
        let ghost after = texts(hosts@);
        assert(after =~= before.insert(at as int, host@));
        assert forall|k: int| at <= k < before.len() implies lex_lt(host@, #[trigger] before[k]) by {
            lemma_lex_lt_total(before[at as int], host@);
            if k > at {
                assert(lex_lt(before[at as int], before[k]));
                lemma_lex_lt_transitive(host@, before[at as int], before[k]);
            }
        }
        assert forall|i: int, j: int| 0 <= i < j < after.len() implies lex_lt(
            #[trigger] after[i],
            #[trigger] after[j],
        ) by {
            if j < at {
                assert(lex_lt(before[i], before[j]));
            } else if j == at {
                assert(lex_lt(before[i], host@));
            } else if i < at {
                assert(lex_lt(before[i], before[j - 1]));
            } else if i == at {
                assert(lex_lt(host@, before[j - 1]));
            } else {
                assert(lex_lt(before[i - 1], before[j - 1]));
            }
        }
        assert forall|h: Seq<char>| after.contains(h) <==> (before.contains(h) || h == host@) by {
            if after.contains(h) {
                let i = choose|i: int| 0 <= i < after.len() && after[i] == h;
                if i < at {
                    assert(before[i] == h);
                } else if i > at {
                    assert(before[i - 1] == h);
                }
            }
            if before.contains(h) {
                let i = choose|i: int| 0 <= i < before.len() && before[i] == h;
                if i < at {
                    assert(after[i] == h);
                } else {
                    assert(after[i + 1] == h);
                }
            }
            if h == host@ {
                assert(after[at as int] == h);
            }
        }
    }
}

} // verus!
