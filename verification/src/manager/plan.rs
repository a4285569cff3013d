//! Which table of packages is browsed, and which filters are left to check.

use vstd::prelude::*;

use crate::json::{facet_json, lemma_facet_json_empty, to_facet_json};
use crate::models::{pairs_of, Facet};

verus! {

/// The table to browse and the filters to apply.
#[derive(Debug)]
pub struct Plan {
    /// Whether packages are taken from the table of filters rather than that of names.
    pub by_facet: bool,
    /// The filter that is browsed by; empty in the table of names.
    pub kind: String,
    pub value: String,
    /// The other filters, as JSON.
    pub residual: String,
}

/// A plan as a mathematical value.
pub struct PlanView {
    pub by_facet: bool,
    pub kind: Seq<char>,
    pub value: Seq<char>,
    pub residual: Seq<char>,
}

impl View for Plan {
    type V = PlanView;

    open spec fn view(&self) -> PlanView {
        PlanView {
            by_facet: self.by_facet,
            kind: self.kind@,
            value: self.value@,
            residual: self.residual@,
        }
    }
}

/// The plan for a request without filters: the table of names.
pub open spec fn default_plan() -> PlanView {
    PlanView { by_facet: false, kind: seq![], value: seq![], residual: "[]"@ }
}

impl Default for Plan {
    fn default() -> (r: Plan)
        ensures
            r@ == default_plan(),
    {
        Plan {
            by_facet: false,
            kind: String::new(),
            value: String::new(),
            residual: "[]".to_owned(),
        }
    }
}

/// The filter that matches the fewest packages, and how many of the filters asked for
/// match any package at all.
#[derive(Debug)]
pub struct Drive {
    pub kind: String,
    pub value: String,
    pub matched: i64,
}

impl Drive {
    /// The filter as a pair of texts.
    pub open spec fn facet(&self) -> (Seq<char>, Seq<char>) {
        (self.kind@, self.value@)
    }
}

/// The filters other than the one that is browsed by, in order.
pub open spec fn rest_of(
    wanted: Seq<(Seq<char>, Seq<char>)>,
    drive: (Seq<char>, Seq<char>),
) -> Seq<(Seq<char>, Seq<char>)> {
    wanted.filter(|f: (Seq<char>, Seq<char>)| f != drive)
}

/// The plan for filters, of which `drive` matches the fewest packages; none if a filter
/// matches no package.
pub open spec fn plan_for(wanted: Seq<(Seq<char>, Seq<char>)>, drive: Option<Drive>) -> Option<
    PlanView,
> {
    match drive {
        None => None,
        Some(d) => if d.matched < wanted.len() {
            None
        } else {
            Some(
                PlanView {
                    by_facet: true,
                    kind: d.kind@,
                    value: d.value@,
                    residual: facet_json(rest_of(wanted, d.facet())),
                },
            )
        },
    }
}

/// An optional plan as a mathematical value.
pub open spec fn optional_plan(p: Option<Plan>) -> Option<PlanView> {
    match p {
        None => None,
        Some(plan) => Some(plan@),
    }
}

/// The filters other than that of `drive`.
fn other_facets(wanted: &Vec<Facet>, drive: &Drive) -> (r: Vec<Facet>)
    ensures
        pairs_of(r@) == rest_of(pairs_of(wanted@), drive.facet()),
{
    let mut out: Vec<Facet> = Vec::new();
    let ghost all = pairs_of(wanted@);
    let mut i: usize = 0;
    assert(all.take(0) =~= seq![]);
    reveal_with_fuel(Seq::<_>::filter, 2);
    assert(pairs_of(out@) =~= rest_of(all.take(0), drive.facet()));
    while i < wanted.len()
        invariant
            i <= wanted@.len(),
            all == pairs_of(wanted@),
            pairs_of(out@) =~= rest_of(all.take(i as int), drive.facet()),
        decreases wanted@.len() - i,
    {
        reveal_with_fuel(Seq::<_>::filter, 2);
        assert(all.take(i + 1).drop_last() =~= all.take(i as int));
        assert(all.take(i + 1).last() == wanted@[i as int]@);
        let f = &wanted[i];
        if f.kind != drive.kind || f.value != drive.value {
            let ghost before = out@;
            out.push(f.copy());
            assert(pairs_of(out@) =~= pairs_of(before).push(wanted@[i as int]@));
        }
        i = i + 1;
    }
    assert(all.take(i as int) =~= all);
    out
}

/// Whether there is a plan, that is, whether every filter matches some package.
pub fn has_plan(wanted: &Vec<Facet>, drive: &Option<Drive>) -> (r: bool)
    ensures
        r <==> plan_for(pairs_of(wanted@), *drive) is Some,
{
    match drive {
        None => false,
        Some(d) => (d.matched as i128) >= (wanted.len() as i128),
    }
}

/// Starts with the filter that matches the fewest packages, and leaves the others to be
/// checked. There is no plan if any filter matches no package.
pub fn plan_with(wanted: &Vec<Facet>, drive: Option<Drive>) -> (r: Option<Plan>)
    ensures
        optional_plan(r) == plan_for(pairs_of(wanted@), drive),
{
    if !has_plan(wanted, &drive) {
        return None;
    }
    match drive {
        None => None,
        Some(d) => {
            let residual = to_facet_json(&other_facets(wanted, &d));
            Some(Plan { by_facet: true, kind: d.kind, value: d.value, residual })
        },
    }
}

// ---------------------------------------------------------------------------
// Laws
// ---------------------------------------------------------------------------

/// No filter is lost and none is checked twice over: each is either the one that is
/// browsed by or among the rest, and the rest holds none but filters that were asked for.
pub proof fn law_plan_covers_filters(
    wanted: Seq<(Seq<char>, Seq<char>)>,
    drive: (Seq<char>, Seq<char>),
    f: (Seq<char>, Seq<char>),
)
    ensures
        rest_of(wanted, drive).contains(f) <==> wanted.contains(f) && f != drive,
    decreases wanted.len(),
{
    let keep = |g: (Seq<char>, Seq<char>)| g != drive;
    reveal_with_fuel(Seq::<_>::filter, 2);
    if wanted.len() > 0 {
        let init = wanted.drop_last();
        law_plan_covers_filters(init, drive, f);
        let before = rest_of(init, drive);
        let all = rest_of(wanted, drive);
        assert(all == if keep(wanted.last()) {
            before.push(wanted.last())
        } else {
            before
        });
        if wanted.contains(f) {
            let i = choose|i: int| 0 <= i < wanted.len() && wanted[i] == f;
            if i < init.len() {
                assert(init[i] == f);
            }
        }
        if init.contains(f) {
            let i = choose|i: int| 0 <= i < init.len() && init[i] == f;
            assert(wanted[i] == f);
        }
        if wanted.last() == f {
            assert(wanted[wanted.len() - 1] == f);
            if f != drive {
                assert(all[all.len() - 1] == f);
            }
        }
        if before.contains(f) {
            let i = choose|i: int| 0 <= i < before.len() && before[i] == f;
            assert(all[i] == f);
        }
        if all.contains(f) {
            let i = choose|i: int| 0 <= i < all.len() && all[i] == f;
            if i < before.len() {
                assert(before[i] == f);
            } else {
                assert(f == wanted.last());
            }
        }
    }
}

/// There is a plan exactly if every filter matches some package.
pub proof fn law_plan_needs_every_filter(
    wanted: Seq<(Seq<char>, Seq<char>)>,
    drive: Option<Drive>,
)
    ensures
        plan_for(wanted, drive) is Some <==> (drive matches Some(d) && d.matched >= wanted.len()),
{
}

/// Nothing is left to check exactly if all filters are the one that is browsed by.
pub proof fn law_residual_empty(
    wanted: Seq<(Seq<char>, Seq<char>)>,
    drive: Drive,
)
    requires
        drive.matched >= wanted.len(),
    ensures
        (plan_for(wanted, Some(drive))->0).residual == "[]"@ <==> forall|i: int|
            0 <= i < wanted.len() ==> #[trigger] wanted[i] == drive.facet(),
{
    let rest = rest_of(wanted, drive.facet());
    lemma_facet_json_empty(rest);
    assert forall|i: int| rest.len() == 0 && 0 <= i < wanted.len() implies #[trigger] wanted[i]
        == drive.facet() by {
        law_plan_covers_filters(wanted, drive.facet(), wanted[i]);
        assert(wanted.contains(wanted[i]));
    }
    if rest.len() > 0 {
        assert(rest.contains(rest[0]));
        law_plan_covers_filters(wanted, drive.facet(), rest[0]);
    }
}

} // verus!
