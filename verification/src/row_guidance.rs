//! Which display rows the active leg runs between.
use crate::flight_plan::{details_fit, normalized_from, plan_within_limits, FlightPlan};
use crate::guidance::{GuidanceState, PlanLeg, SequencingMode};
use crate::nav::{nav_ref_eq, same_nav_ref, NavRef};
use crate::projection::{is_hold_row, target_row_id};
use crate::rows::{FlightPlanDisplayRowKind, FlightPlanDisplayRowUiView};
use crate::sequencing::{
    active_guidance_leg, active_leg_of, spec_active_guidance_leg, spec_terminal_hold_start_detail,
    terminal_hold_start_detail_index_for_leg,
};
use crate::text::str_eq;
use vstd::prelude::*;

verus! {

/// The first row, from row `i` on, that satisfies `pred`.
pub open spec fn first_row(
    rows: Seq<FlightPlanDisplayRowUiView>,
    pred: spec_fn(FlightPlanDisplayRowUiView) -> bool,
    i: int,
) -> Option<int>
    decreases rows.len() - i,
{
    if i < 0 || i >= rows.len() {
        None
    } else if pred(rows[i]) {
        Some(i)
    } else {
        first_row(rows, pred, i + 1)
    }
}

/// The last of the first `n` rows that satisfies `pred`.
pub open spec fn last_row_before(
    rows: Seq<FlightPlanDisplayRowUiView>,
    pred: spec_fn(FlightPlanDisplayRowUiView) -> bool,
    n: int,
) -> Option<int>
    decreases n,
{
    if n <= 0 {
        None
    } else if pred(rows[n - 1]) {
        Some(n - 1)
    } else {
        last_row_before(rows, pred, n - 1)
    }
}

/// A waypoint row that shows `n`.
pub open spec fn waypoint_row_at(r: FlightPlanDisplayRowUiView, n: NavRef) -> bool {
    r.row_kind == FlightPlanDisplayRowKind::Waypoint && (r.nav_ref matches Some(m) && same_nav_ref(
        m,
        n,
    ))
}

/// A waypoint row of leg `l` that shows `n`.
pub open spec fn leg_row_at(r: FlightPlanDisplayRowUiView, l: usize, n: NavRef) -> bool {
    waypoint_row_at(r, n) && r.leg_index == Some(l)
}

/// The hold row of leg `l`.
pub open spec fn hold_row_of(l: usize) -> spec_fn(FlightPlanDisplayRowUiView) -> bool {
    |r: FlightPlanDisplayRowUiView| is_hold_row(r) && r.leg_index == Some(l)
}

/// A waypoint row of leg `l` showing `n`.
pub open spec fn leg_row_of(l: usize, n: NavRef) -> spec_fn(FlightPlanDisplayRowUiView) -> bool {
    |r: FlightPlanDisplayRowUiView| leg_row_at(r, l, n)
}

/// A waypoint row showing `n`.
pub open spec fn waypoint_row_of(n: NavRef) -> spec_fn(FlightPlanDisplayRowUiView) -> bool {
    |r: FlightPlanDisplayRowUiView| waypoint_row_at(r, n)
}

/// The row with uid `uid`.
pub open spec fn uid_row_of(uid: Seq<char>) -> spec_fn(FlightPlanDisplayRowUiView) -> bool {
    |r: FlightPlanDisplayRowUiView| r.uid@ == uid
}

/// The uid of row `i`, if there is one.
pub open spec fn uid_of_row(rows: Seq<FlightPlanDisplayRowUiView>, i: Option<int>) -> Option<Seq<char>> {
    match i {
        Some(k) => Some(rows[k].uid@),
        None => None,
    }
}

/// Guidance `g` holds in the terminal hold of its active leg on plan `p`.
pub open spec fn spec_holding(p: FlightPlan, g: GuidanceState) -> bool {
    match spec_terminal_hold_start_detail(p, g.active_leg_index as int) {
        Some(h) => g.active_detail_index matches Some(d) && d >= h,
        None => false,
    }
}

/// The rows that guidance `g`, flying `leg`, runs between. In a terminal
/// hold: from the last waypoint row of the leg, before the hold row, that
/// shows where the leg ends, to the hold row. Otherwise to the Direct-To's
/// target row, or to the first waypoint row of the leg that shows where it
/// ends; and from the last waypoint row before that which shows where the
/// leg starts, unless a Direct-To starts from a position.
pub open spec fn spec_row_uids_for(
    g: GuidanceState,
    holding: bool,
    active_leg: Option<PlanLeg>,
    rows: Seq<FlightPlanDisplayRowUiView>,
) -> (Option<Seq<char>>, Option<Seq<char>>) {
    match active_leg {
        None => (None, None),
        Some(leg) => {
            let l = g.active_leg_index;
            if holding {
                match first_row(rows, hold_row_of(l), 0) {
                    None => (None, None),
                    Some(t) => (
                        uid_of_row(rows, last_row_before(rows, leg_row_of(l, leg.to), t)),
                        Some(rows[t].uid@),
                    ),
                }
            } else {
                let to = if g.sequencing_mode == SequencingMode::DirectTo {
                    match g.direct_to {
                        Some(d) => first_row(rows, uid_row_of(target_row_id(d)), 0),
                        None => None,
                    }
                } else {
                    first_row(rows, leg_row_of(l, leg.to), 0)
                };
                match to {
                    None => (None, None),
                    Some(t) => {
                        let from = if g.sequencing_mode == SequencingMode::DirectTo
                            && leg.from is LatLon {
                            None
                        } else {
                            last_row_before(rows, waypoint_row_of(leg.from), t)
                        };
                        (uid_of_row(rows, from), Some(rows[t].uid@))
                    },
                }
            }
        },
    }
}

/// The rows the active leg runs between, on plan `p` whose normalised form
/// is `n`.
pub open spec fn spec_active_row_uids(
    p: FlightPlan,
    n: FlightPlan,
    rows: Seq<FlightPlanDisplayRowUiView>,
) -> (Option<Seq<char>>, Option<Seq<char>>) {
    match p.guidance {
        None => (None, None),
        Some(g) => spec_row_uids_for(g, spec_holding(p, g), spec_active_guidance_leg(n), rows),
    }
}

/// The text of an optional string.
pub open spec fn text_of(s: Option<String>) -> Option<Seq<char>> {
    match s {
        Some(x) => Some(x@),
        None => None,
    }
}

pub(crate) proof fn lemma_first_row_range(
    rows: Seq<FlightPlanDisplayRowUiView>,
    pred: spec_fn(FlightPlanDisplayRowUiView) -> bool,
    i: int,
)
    ensures
        first_row(rows, pred, i) matches Some(k) ==> 0 <= i <= k < rows.len() && pred(rows[k]),
    decreases rows.len() - i,
{
    if 0 <= i < rows.len() {
        lemma_first_row_range(rows, pred, i + 1);
    }
}

proof fn lemma_last_row_range(
    rows: Seq<FlightPlanDisplayRowUiView>,
    pred: spec_fn(FlightPlanDisplayRowUiView) -> bool,
    n: int,
)
    ensures
        last_row_before(rows, pred, n) matches Some(k) ==> 0 <= k < n,
    decreases n,
{
    if n > 0 {
        lemma_last_row_range(rows, pred, n - 1);
    }
}

fn is_waypoint_row_at(r: &FlightPlanDisplayRowUiView, n: &NavRef) -> (b: bool)
    ensures
        b == waypoint_row_at(*r, *n),
{
    r.row_kind == FlightPlanDisplayRowKind::Waypoint && match &r.nav_ref {
        Some(m) => nav_ref_eq(m, n),
        None => false,
    }
}

fn is_leg_row_at(r: &FlightPlanDisplayRowUiView, l: usize, n: &NavRef) -> (b: bool)
    ensures
        b == leg_row_at(*r, l, *n),
{
    is_waypoint_row_at(r, n) && match r.leg_index {
        Some(x) => x == l,
        None => false,
    }
}

/// The first hold row of leg `l`.
fn find_hold_row(rows: &[FlightPlanDisplayRowUiView], l: usize) -> (r: Option<usize>)
    ensures
        r == match first_row(
            rows@,
            hold_row_of(l),
            0,
        ) {
            Some(k) => Some(k as usize),
            None => None,
        },
{
    let ghost pred = hold_row_of(l);
    proof {
        lemma_first_row_range(rows@, pred, 0);
    }
    let mut i: usize = 0;
    while i < rows.len()
        invariant
            pred == hold_row_of(l),
            i <= rows@.len(),
            first_row(rows@, pred, 0) matches Some(k) ==> i <= k < rows@.len(),
            first_row(rows@, pred, 0) == first_row(rows@, pred, i as int),
        decreases rows@.len() - i,
    {
        let r = &rows[i];
        let on_leg = match r.leg_index {
            Some(x) => x == l,
            None => false,
        };
        let hit = r.row_kind == FlightPlanDisplayRowKind::Discontinuity && str_eq(
            r.label.as_str(),
            "HOLD",
        ) && on_leg;
        assert(hit == pred(rows@[i as int]));
        if hit {
            return Some(i);
        }
        proof {
            lemma_first_row_range(rows@, pred, i + 1);
        }
        i = i + 1;
    }
    None
}

/// The first waypoint row of leg `l` that shows `n`.
fn find_leg_row(rows: &[FlightPlanDisplayRowUiView], l: usize, n: &NavRef) -> (r: Option<usize>)
    ensures
        r == match first_row(rows@, leg_row_of(l, *n), 0) {
            Some(k) => Some(k as usize),
            None => None,
        },
{
    let ghost pred = leg_row_of(l, *n);
    proof {
        lemma_first_row_range(rows@, pred, 0);
    }
    let mut i: usize = 0;
    while i < rows.len()
        invariant
            pred == leg_row_of(l, *n),
            i <= rows@.len(),
            first_row(rows@, pred, 0) matches Some(k) ==> i <= k < rows@.len(),
            first_row(rows@, pred, 0) == first_row(rows@, pred, i as int),
        decreases rows@.len() - i,
    {
        let hit = is_leg_row_at(&rows[i], l, n);
        assert(hit == pred(rows@[i as int]));
        if hit {
            return Some(i);
        }
        proof {
            lemma_first_row_range(rows@, pred, i + 1);
        }
        i = i + 1;
    }
    None
}

/// The first row whose uid is `uid`.
pub fn find_row_by_uid(rows: &[FlightPlanDisplayRowUiView], uid: &str) -> (r: Option<usize>)
    ensures
        r == match first_row(rows@, uid_row_of(uid@), 0) {
            Some(k) => Some(k as usize),
            None => None,
        },
        first_row(rows@, uid_row_of(uid@), 0) matches Some(k) ==> 0 <= k < rows@.len(),
{
    let ghost pred = uid_row_of(uid@);
    proof {
        lemma_first_row_range(rows@, pred, 0);
    }
    let mut i: usize = 0;
    while i < rows.len()
        invariant
            pred == uid_row_of(uid@),
            i <= rows@.len(),
            first_row(rows@, pred, 0) matches Some(k) ==> i <= k < rows@.len(),
            first_row(rows@, pred, 0) == first_row(rows@, pred, i as int),
        decreases rows@.len() - i,
    {
        let hit = str_eq(rows[i].uid.as_str(), uid);
        assert(hit == pred(rows@[i as int]));
        if hit {
            return Some(i);
        }
        proof {
            lemma_first_row_range(rows@, pred, i + 1);
        }
        i = i + 1;
    }
    None
}

/// The last waypoint row before row `t` that shows `n`, of leg `l` when
/// one is named.
fn find_last_row_at(rows: &[FlightPlanDisplayRowUiView], t: usize, l: Option<usize>, n: &NavRef) -> (r:
    Option<usize>)
    requires
        t <= rows@.len(),
    ensures
        r == match l {
            Some(leg) => match last_row_before(
                rows@,
                leg_row_of(leg, *n),
                t as int,
            ) {
                Some(k) => Some(k as usize),
                None => None,
            },
            None => match last_row_before(
                rows@,
                waypoint_row_of(*n),
                t as int,
            ) {
                Some(k) => Some(k as usize),
                None => None,
            },
        },
{
    let ghost pred = match l {
        Some(leg) => leg_row_of(leg, *n),
        None => waypoint_row_of(*n),
    };
    let mut i: usize = t;
    while i > 0
        invariant
            pred == match l {
                Some(leg) => leg_row_of(leg, *n),
                None => waypoint_row_of(*n),
            },
            i <= t <= rows@.len(),
            last_row_before(rows@, pred, t as int) == last_row_before(rows@, pred, i as int),
        decreases i,
    {
        let hit = match l {
            Some(leg) => is_leg_row_at(&rows[i - 1], leg, n),
            None => is_waypoint_row_at(&rows[i - 1], n),
        };
        assert(hit == pred(rows@[i - 1]));
        if hit {
            return Some(i - 1);
        }
        i = i - 1;
    }
    None
}

/// The uids of the rows that guidance `g`, flying `active_leg`, runs
/// between.
fn row_uids_for(
    g: &GuidanceState,
    holding: bool,
    active_leg: Option<PlanLeg>,
    rows: &[FlightPlanDisplayRowUiView],
) -> (r: (Option<String>, Option<String>))
    ensures
        (text_of(r.0), text_of(r.1)) == spec_row_uids_for(*g, holding, active_leg, rows@),
{
    let l = g.active_leg_index;
    let leg = match active_leg {
        Some(leg) => leg,
        None => {
            return (None, None);
        },
    };
    if holding {
        let t = match find_hold_row(rows, l) {
            Some(t) => t,
            None => {
                return (None, None);
            },
        };
        proof {
            lemma_first_row_range(rows@, hold_row_of(l), 0);
        }
        let from = find_last_row_at(rows, t, Some(l), &leg.to);
        proof {
            lemma_last_row_range(rows@, leg_row_of(l, leg.to), t as int);
        }
        let from_uid = match from {
            Some(k) => Some(rows[k].uid.clone()),
            None => None,
        };
        return (from_uid, Some(rows[t].uid.clone()));
    }
    let to = if g.sequencing_mode == SequencingMode::DirectTo {
        match &g.direct_to {
            Some(d) => find_row_by_uid(rows, d.target_row.row_id().as_str()),
            None => None,
        }
    } else {
        find_leg_row(rows, l, &leg.to)
    };
    let t = match to {
        Some(t) => t,
        None => {
            return (None, None);
        },
    };
    proof {
        if g.sequencing_mode == SequencingMode::DirectTo {
            if g.direct_to is Some {
                lemma_first_row_range(rows@, uid_row_of(target_row_id(g.direct_to->0)), 0);
            }
        } else {
            lemma_first_row_range(rows@, leg_row_of(l, leg.to), 0);
        }
    }
    let from_position = match &leg.from {
        NavRef::LatLon(_) => true,
        _ => false,
    };
    let from = if g.sequencing_mode == SequencingMode::DirectTo && from_position {
        None
    } else {
        find_last_row_at(rows, t, None, &leg.from)
    };
    proof {
        lemma_last_row_range(rows@, waypoint_row_of(leg.from), t as int);
    }
    let from_uid = match from {
        Some(k) => Some(rows[k].uid.clone()),
        None => None,
    };
    (from_uid, Some(rows[t].uid.clone()))
}

fn holding_in(plan: &FlightPlan, g: &GuidanceState) -> (r: bool)
    requires
        details_fit(*plan),
    ensures
        r == spec_holding(*plan, *g),
{
    match terminal_hold_start_detail_index_for_leg(plan, g.active_leg_index) {
        Some(h) => match g.active_detail_index {
            Some(d) => d >= h,
            None => false,
        },
        None => false,
    }
}

/// The uids of the rows the active leg runs between.
pub fn active_guidance_row_uids(plan: FlightPlan, rows: &[FlightPlanDisplayRowUiView]) -> (r: (
    Option<String>,
    Option<String>,
))
    requires
        plan_within_limits(plan),
    ensures
        exists|n: FlightPlan| #[trigger]
            normalized_from(plan, n) && (text_of(r.0), text_of(r.1)) == spec_active_row_uids(
                plan,
                n,
                rows@,
            ),
{
    let ghost p = plan;
    let guidance = match &plan.guidance {
        Some(g) => Some(crate::sequencing::duplicate_guidance(g)),
        None => None,
    };
    let holding = match &guidance {
        Some(g) => holding_in(&plan, g),
        None => false,
    };
    let leg = active_guidance_leg(plan);
    let ghost n = choose|n: FlightPlan| #[trigger]
        normalized_from(p, n) && leg == spec_active_guidance_leg(n);
    match guidance {
        Some(g) => row_uids_for(&g, holding, leg, rows),
        None => (None, None),
    }
}

/// The uids of the rows the active leg runs between, on the plan as it is.
pub fn active_row_uids_in(plan: &FlightPlan, rows: &[FlightPlanDisplayRowUiView]) -> (r: (
    Option<String>,
    Option<String>,
))
    requires
        details_fit(*plan),
    ensures
        (text_of(r.0), text_of(r.1)) == spec_active_row_uids(*plan, *plan, rows@),
{
    match &plan.guidance {
        Some(g) => {
            let holding = holding_in(plan, g);
            let leg = active_leg_of(plan);
            row_uids_for(g, holding, leg, rows)
        },
        None => (None, None),
    }
}

} // verus!
