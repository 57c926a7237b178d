//! Reports in the order of the source.
use vstd::prelude::*;

use crate::source::{diag_views, DiagView, Diagnostic};

verus! {

/// Where a report points.
pub open spec fn start_of(d: DiagView) -> u32 {
    d.primary.span.start
}

/// `s` with `d` after the last report that starts no later.
pub open spec fn placed(s: Seq<DiagView>, d: DiagView) -> Seq<DiagView>
    decreases s.len(),
{
    if s.len() == 0 || start_of(s.last()) <= start_of(d) {
        s.push(d)
    } else {
        placed(s.drop_last(), d).push(s.last())
    }
}

/// Reports by where they start; those that start together keep their order.
pub open spec fn in_source_order(s: Seq<DiagView>) -> Seq<DiagView>
    decreases s.len(),
{
    if s.len() == 0 {
        Seq::empty()
    } else {
        placed(in_source_order(s.drop_last()), s.last())
    }
}

/// Whether no report starts before an earlier one.
pub open spec fn ordered(s: Seq<DiagView>) -> bool {
    forall|i: int, j: int|
        #![trigger s[i], s[j]]
        0 <= i <= j < s.len() ==> start_of(s[i]) <= start_of(s[j])
}

/// The place of a report among others.
pub open spec fn place_of(s: Seq<DiagView>, d: DiagView) -> nat
    decreases s.len(),
{
    if s.len() == 0 || start_of(s.last()) <= start_of(d) {
        s.len()
    } else {
        place_of(s.drop_last(), d)
    }
}

proof fn lemma_placed(s: Seq<DiagView>, d: DiagView)
    ensures
        place_of(s, d) <= s.len(),
        placed(s, d) == s.insert(place_of(s, d) as int, d),
        forall|i: int| place_of(s, d) <= i < s.len() ==> start_of(d) < start_of(#[trigger] s[i]),
        place_of(s, d) > 0 ==> start_of(s[place_of(s, d) - 1]) <= start_of(d),
    decreases s.len(),
{
    if s.len() == 0 || start_of(s.last()) <= start_of(d) {
        assert(s.insert(s.len() as int, d) =~= s.push(d));
    } else {
        let front = s.drop_last();
        lemma_placed(front, d);
        assert(front.insert(place_of(s, d) as int, d).push(s.last()) =~= s.insert(
            place_of(s, d) as int,
            d,
        ));
        assert forall|i: int| place_of(s, d) <= i < s.len() implies start_of(d) < start_of(
            #[trigger] s[i],
        ) by {
            if i < s.len() - 1 {
                assert(s[i] == front[i]);
            }
        }
    }
}

fn place(out: &mut Vec<Diagnostic>, d: Diagnostic)
    ensures
        diag_views(final(out)@) == placed(diag_views(old(out)@), d@),
{
    let ghost s = diag_views(out@);
    let mut i: usize = out.len();
    assert(s.take(i as int) =~= s);
    while i > 0 && out[i - 1].primary.span.start > d.primary.span.start
        invariant
            i <= out@.len(),
            s == diag_views(out@),
            place_of(s.take(i as int), d@) == place_of(s, d@),
        decreases i,
    {
        assert(s[i - 1] == out@[i - 1]@);
        assert(s.take(i as int).drop_last() =~= s.take(i - 1));
        i -= 1;
    }
    proof {
        if i > 0 {
            assert(s[i - 1] == out@[i - 1]@);
            assert(s.take(i as int).last() == s[i - 1]);
        }
        lemma_placed(s, d@);
    }
    out.insert(i, d);
    assert(diag_views(out@) =~= s.insert(i as int, d@));
}

/// The reports, by where they start.
pub fn sort_reports(ds: &Vec<Diagnostic>) -> (r: Vec<Diagnostic>)
    ensures
        diag_views(r@) == in_source_order(diag_views(ds@)),
        ordered(diag_views(r@)),
{
    let ghost s = diag_views(ds@);
    let mut out: Vec<Diagnostic> = Vec::new();
    let mut i: usize = 0;
    assert(diag_views(out@) =~= Seq::empty());
    while i < ds.len()
        invariant
            i <= ds@.len(),
            s == diag_views(ds@),
            diag_views(out@) == in_source_order(s.take(i as int)),
        decreases ds@.len() - i,
    {
        assert(s.take(i + 1).drop_last() =~= s.take(i as int));
        assert(s.take(i + 1).last() == ds@[i as int]@);
        place(&mut out, ds[i].dup());
        i += 1;
    }
    assert(s.take(i as int) =~= s);
    proof {
        law_reports_are_in_source_order(s);
    }
    out
}

// ---------------------------------------------------------------------------
// Laws
// ---------------------------------------------------------------------------

proof fn lemma_placing_keeps_order(s: Seq<DiagView>, d: DiagView)
    requires
        ordered(s),
    ensures
        ordered(placed(s, d)),
{
    let k = place_of(s, d) as int;
    let t = s.insert(k, d);
    lemma_placed(s, d);
    assert forall|i: int, j: int|
        #![trigger t[i], t[j]]
        0 <= i <= j < t.len() implies start_of(t[i]) <= start_of(t[j]) by {
        if i < k && k > 0 {
            assert(start_of(s[i]) <= start_of(s[k - 1]));
        }
    }
}

/// No report comes before one that starts earlier.
pub proof fn law_reports_are_in_source_order(s: Seq<DiagView>)
    ensures
        ordered(in_source_order(s)),
    decreases s.len(),
{
    if s.len() > 0 {
        law_reports_are_in_source_order(s.drop_last());
        lemma_placing_keeps_order(in_source_order(s.drop_last()), s.last());
    }
}

/// The reports that start at `k`, in order.
pub open spec fn starting_at(s: Seq<DiagView>, k: u32) -> Seq<DiagView> {
    s.filter(|d: DiagView| start_of(d) == k)
}

proof fn lemma_push_at(s: Seq<DiagView>, d: DiagView, k: u32)
    ensures
        starting_at(s.push(d), k) == if start_of(d) == k {
            starting_at(s, k).push(d)
        } else {
            starting_at(s, k)
        },
{
    reveal(Seq::filter);
    assert(s.push(d).drop_last() =~= s);
}

proof fn lemma_placed_at(s: Seq<DiagView>, d: DiagView, k: u32)
    ensures
        starting_at(placed(s, d), k) == starting_at(s.push(d), k),
    decreases s.len(),
{
    if s.len() > 0 && start_of(s.last()) > start_of(d) {
        let front = s.drop_last();
        lemma_placed_at(front, d, k);
        lemma_push_at(placed(front, d), s.last(), k);
        lemma_push_at(s, d, k);
        lemma_push_at(front, d, k);
        lemma_push_at(front, s.last(), k);
        assert(front.push(s.last()) =~= s);
    }
}

/// Ordering loses no report, adds none, and keeps those that start together as
/// they were.
pub proof fn law_ordering_keeps_every_report(s: Seq<DiagView>, k: u32)
    ensures
        starting_at(in_source_order(s), k) == starting_at(s, k),
    decreases s.len(),
{
    if s.len() > 0 {
        law_ordering_keeps_every_report(s.drop_last(), k);
        let front = in_source_order(s.drop_last());
        lemma_placed_at(front, s.last(), k);
        lemma_push_at(front, s.last(), k);
        lemma_push_at(s.drop_last(), s.last(), k);
        assert(s.drop_last().push(s.last()) =~= s);
    } else {
        assert(s =~= Seq::empty());
    }
}

/// Ordering keeps how many reports there are.
pub proof fn law_ordering_keeps_the_count(s: Seq<DiagView>)
    ensures
        in_source_order(s).len() == s.len(),
    decreases s.len(),
{
    if s.len() > 0 {
        law_ordering_keeps_the_count(s.drop_last());
        lemma_placed(in_source_order(s.drop_last()), s.last());
    }
}

} // verus!
