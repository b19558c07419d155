//! Guidance after the route changes: what stays valid of the old guidance on
//! the rebuilt plan.
use crate::component_views::{guidance_anchor_component_views, spec_anchor_view};
use crate::direct_to::{
    active_component_index_for_guidance, direct_to_target_row, identity_rows, identity_rows_of,
    planned_row_id_for_leg_index, spec_active_component, spec_direct_to_target_row,
    spec_planned_row_id, spec_resume_leg,
};
use crate::projection::{
    law_row_legs_are_legs_of_the_plan, leg_of_plan, project_display_rows, spec_display_rows,
};
use crate::component_views::identity_rows_from;
use crate::direct_to::no_removals;
use crate::row_guidance::{
    active_row_uids_in, lemma_first_row_range, spec_active_row_uids, text_of, uid_row_of,
};
use crate::rows::RouteComponentUiView;
use crate::flight_plan::{
    details_before, details_fit, first_guidance_detail_index_for_leg,
    guidance_detail_ref_by_index, leg_detail_count, lemma_details_grow, spec_detail_ref,
    FlightPlan, ResolvedLeg,
};
use crate::guidance::{
    DirectToState, DirectToTargetRow, FlightPlanRowId, GuidanceState, SequencingMode,
};

use crate::route::{AppError, AppErrorKind};
use crate::route_edits::error_of;
use crate::rows::FlightPlanDisplayRowUiView;
use crate::text::str_eq;
use vstd::prelude::*;

verus! {

/// The first leg, from leg `i` on, whose id is `id`.
pub open spec fn first_leg_with_id(legs: Seq<ResolvedLeg>, id: Seq<char>, i: int) -> Option<int>
    decreases legs.len() - i,
{
    if i < 0 || i >= legs.len() {
        None
    } else if legs[i].id@ == id {
        Some(i)
    } else {
        first_leg_with_id(legs, id, i + 1)
    }
}

/// The place of the leg whose id is `leg_id`.
pub fn leg_index_by_id(resolved_legs: &Vec<ResolvedLeg>, leg_id: &str) -> (r: Option<usize>)
    ensures
        r == match first_leg_with_id(resolved_legs@, leg_id@, 0) {
            Some(i) => Some(i as usize),
            None => None,
        },
{
    let mut i: usize = 0;
    proof {
        lemma_first_leg_with_id_range(resolved_legs@, leg_id@, 0);
    }
    while i < resolved_legs.len()
        invariant
            i <= resolved_legs@.len(),
            first_leg_with_id(resolved_legs@, leg_id@, 0) matches Some(k) ==> i <= k
                < resolved_legs@.len(),
            first_leg_with_id(resolved_legs@, leg_id@, 0) == first_leg_with_id(
                resolved_legs@,
                leg_id@,
                i as int,
            ),
        decreases resolved_legs@.len() - i,
    {
        if str_eq(resolved_legs[i].id.as_str(), leg_id) {
            return Some(i);
        }
        proof {
            lemma_first_leg_with_id_range(resolved_legs@, leg_id@, i + 1);
        }
        i = i + 1;
    }
    None
}

proof fn lemma_first_leg_with_id_range(legs: Seq<ResolvedLeg>, id: Seq<char>, i: int)
    requires
        0 <= i,
    ensures
        first_leg_with_id(legs, id, i) matches Some(k) ==> i <= k < legs.len(),
    decreases legs.len() - i,
{
    if i < legs.len() {
        lemma_first_leg_with_id_range(legs, id, i + 1);
    }
}

/// The old guidance `g` on the rebuilt plan `p` with identity rows `rows`:
/// the active leg clamped to the route, the active detail kept when it is
/// still a detail of that leg (else the leg's first), the split leg kept
/// when a leg still has its id, and a Direct-To moved to its target row's
/// leg; a Direct-To whose planned row is gone becomes off-plan, otherwise
/// its resume row is worked out again.
pub open spec fn spec_revalidated(
    p: FlightPlan,
    rows: Seq<FlightPlanDisplayRowUiView>,
    g: GuidanceState,
) -> Result<GuidanceState, (AppErrorKind, Seq<char>)> {
    let legs = p.resolved_legs@;
    let active = if g.active_leg_index >= legs.len() {
        (legs.len() - 1) as usize
    } else {
        g.active_leg_index
    };
    let first = details_before(legs, active as int);
    let still_valid = g.active_detail_index matches Some(d) && first <= d < first + leg_detail_count(
        legs[active as int],
    );
    let detail = if still_valid {
        g.active_detail_index
    } else {
        Some(first as usize)
    };
    let split = match g.display_split_leg_id {
        Some(id) => if first_leg_with_id(legs, id@, 0) is Some {
            Some(id)
        } else {
            None
        },
        None => None,
    };
    let base = GuidanceState {
        active_leg_index: active,
        active_detail_index: detail,
        display_split_leg_id: split,
        ..g
    };
    match g.direct_to {
        None => Ok(base),
        Some(d) => {
            let target_row = spec_direct_to_target_row(rows, d);
            let moved = match target_row {
                Some(k) => match rows[k].leg_index {
                    Some(t) => GuidanceState { active_leg_index: t, ..base },
                    None => base,
                },
                None => base,
            };
            if target_row is None && d.target_row is Planned {
                Ok(
                    GuidanceState {
                        direct_to: Some(
                            DirectToState {
                                target_row: DirectToTargetRow::Temporary {
                                    row_id: d.target_row->Planned_row_id,
                                },
                                resume_row_id: None,
                                ..d
                            },
                        ),
                        ..moved
                    },
                )
            } else {
                match target_row {
                    None => Ok(
                        GuidanceState {
                            direct_to: Some(DirectToState { resume_row_id: None, ..d }),
                            ..moved
                        },
                    ),
                    Some(k) => match spec_resume_leg(
                        p,
                        rows[k].leg_index,
                        rows[k].component_index,
                        d.target,
                    ) {
                        None => Ok(
                            GuidanceState {
                                direct_to: Some(DirectToState { resume_row_id: None, ..d }),
                                ..moved
                            },
                        ),
                        Some(l) => match spec_planned_row_id(rows, l as usize) {
                            Err(e) => Err(e),
                            Ok(_) => Ok(moved),
                        },
                    },
                }
            }
        },
    }
}

/// The resume row that revalidation gives a Direct-To, when it keeps its
/// planned target and finds a leg to resume on.
pub open spec fn revalidated_resume(
    p: FlightPlan,
    rows: Seq<FlightPlanDisplayRowUiView>,
    d: DirectToState,
) -> Option<Seq<char>> {
    match spec_direct_to_target_row(rows, d) {
        Some(k) => match spec_resume_leg(p, rows[k].leg_index, rows[k].component_index, d.target) {
            Some(l) => match spec_planned_row_id(rows, l as usize) {
                Ok(uid) => Some(uid),
                Err(_) => None,
            },
            None => None,
        },
        None => None,
    }
}

/// `r` is the outcome of revalidating guidance `g` on plan `p` with identity
/// rows `rows`: none for an empty route or no guidance; else the guidance
/// that `spec_revalidated` describes, whose resume row, when it has one, is
/// `revalidated_resume`.
pub open spec fn revalidation_outcome(
    p: FlightPlan,
    rows: Seq<FlightPlanDisplayRowUiView>,
    g: Option<GuidanceState>,
    r: Result<Option<GuidanceState>, AppError>,
) -> bool {
    if p.resolved_legs.len() == 0 {
        r matches Ok(None)
    } else {
        match g {
            None => r matches Ok(None),
            Some(gs) => match spec_revalidated(p, rows, gs) {
                Err(e) => r matches Err(x) && error_of(x) == e,
                Ok(expected) => r matches Ok(Some(out)) && match (expected.direct_to, gs.direct_to) {
                    (Some(ed), Some(d)) => {
                        &&& out == GuidanceState { direct_to: out.direct_to, ..expected }
                        &&& out.direct_to matches Some(od)
                        &&& od == DirectToState { resume_row_id: od.resume_row_id, ..ed }
                        &&& match od.resume_row_id {
                            Some(rid) => revalidated_resume(p, rows, d) == Some(rid.0@),
                            None => ed.resume_row_id is None && revalidated_resume(
                                p,
                                rows,
                                d,
                            ) is None,
                        }
                    },
                    _ => out == expected,
                },
            },
        }
    }
}

/// Keeps what stays valid of guidance `guidance` on the rebuilt plan, whose
/// identity rows are `rows`.
pub fn revalidate_guidance_with_rows(
    guidance: Option<GuidanceState>,
    plan: &FlightPlan,
    rows: &[FlightPlanDisplayRowUiView],
) -> (r: Result<Option<GuidanceState>, AppError>)
    requires
        details_fit(*plan),
    ensures
        revalidation_outcome(*plan, rows@, guidance, r),
{
    let legs = &plan.resolved_legs;
    let n = legs.len();
    if n == 0 {
        return Ok(None);
    }
    let mut g = match guidance {
        Some(g) => g,
        None => {
            return Ok(None);
        },
    };
    let ghost old = g;
    if g.active_leg_index >= n {
        g.active_leg_index = n - 1;
    }
    let active = g.active_leg_index;
    let first = match first_guidance_detail_index_for_leg(plan, active) {
        Some(f) => f,
        None => 0,
    };
    proof {
        lemma_details_grow(legs@, active as int + 1, n as int);
    }
    let count = legs[active].detail_count();
    let still_valid = match g.active_detail_index {
        Some(d) => d >= first && d - first < count,
        None => false,
    };
    if !still_valid {
        g.active_detail_index = Some(first);
    }
    let keep_split = match &g.display_split_leg_id {
        Some(id) => leg_index_by_id(legs, id.as_str()).is_some(),
        None => false,
    };
    if !keep_split {
        g.display_split_leg_id = None;
    }
    let ghost base = g;
    let direct_to = g.direct_to.take();
    match direct_to {
        None => {
            g.direct_to = None;
            Ok(Some(g))
        },
        Some(mut d) => {
            let target_row = direct_to_target_row(rows, &d);
            match target_row {
                Some(k) => match rows[k].leg_index {
                    Some(t) => {
                        g.active_leg_index = t;
                    },
                    None => {},
                },
                None => {},
            }
            let planned = d.target_row.is_planned();
            if target_row.is_none() && planned {
                let id = match &d.target_row {
                    DirectToTargetRow::Planned { row_id } => FlightPlanRowId(row_id.0.clone()),
                    DirectToTargetRow::Temporary { row_id } => FlightPlanRowId(row_id.0.clone()),
                };
                d.target_row = DirectToTargetRow::Temporary { row_id: id };
                d.resume_row_id = None;
                g.direct_to = Some(d);
                return Ok(Some(g));
            }
            let resume = match target_row {
                Some(k) => crate::direct_to::resume_leg_index(
                    plan,
                    rows[k].leg_index,
                    rows[k].component_index,
                    &d.target,
                ),
                None => None,
            };
            d.resume_row_id = match resume {
                Some(l) => match planned_row_id_for_leg_index(rows, l) {
                    Ok(id) => Some(id),
                    Err(e) => {
                        return Err(e);
                    },
                },
                None => None,
            };
            g.direct_to = Some(d);
            Ok(Some(g))
        },
    }
}

/// The component that guidance is in on plan `p`, by its identity rows.
pub open spec fn spec_anchor_active(p: FlightPlan, idrows: Seq<FlightPlanDisplayRowUiView>) -> Option<
    usize,
> {
    match p.guidance {
        Some(g) => spec_active_component(p, idrows, g),
        None => None,
    }
}

/// `rows` are the display rows that anchor guidance on plan `p`: the rows
/// of its components, none open to edits, the one guidance is in marked
/// active.
pub open spec fn anchor_rows_of(p: FlightPlan, rows: Seq<FlightPlanDisplayRowUiView>) -> bool {
    exists|idrows: Seq<FlightPlanDisplayRowUiView>, views: Seq<RouteComponentUiView>|
        #![trigger identity_rows_of(p, idrows), spec_display_rows(p, views, rows)]
        identity_rows_of(p, idrows) && views.len() == p.route_components.len() && (forall|i: int|
            0 <= i < views.len() ==> spec_anchor_view(
                p,
                spec_anchor_active(p, idrows),
                i,
                #[trigger] views[i],
            )) && spec_display_rows(p, views, rows)
}

/// The display rows that anchor guidance on the (normalised) plan.
pub fn guidance_anchor_display_rows(plan: &FlightPlan) -> (r: Vec<FlightPlanDisplayRowUiView>)
    requires
        details_fit(*plan),
        plan.route_component_uids.len() == plan.route_components.len(),
        plan.route_components.len() <= isize::MAX,
    ensures
        anchor_rows_of(*plan, r@),
{
    let idrows = identity_rows(plan);
    let active = match &plan.guidance {
        Some(g) => active_component_index_for_guidance(plan, idrows.as_slice(), g),
        None => None,
    };
    let views = guidance_anchor_component_views(plan, active);
    let rows = project_display_rows(plan, views.as_slice());
    assert(spec_display_rows(*plan, views@, rows@));
    assert(identity_rows_of(*plan, idrows@));
    rows
}

/// Where guidance was before the route changed: the rows its active leg ran
/// between, the guidance itself, and which drawn element of its leg it was
/// at.
pub struct ActiveGuidanceAnchor {
    pub from_row_uid: Option<String>,
    pub to_row_uid: Option<String>,
    pub guidance: GuidanceState,
    pub active_detail_element_index: Option<usize>,
}

/// The drawn element of its active leg that guidance `g` is at, when its
/// active detail belongs to that leg.
pub open spec fn spec_anchor_element(p: FlightPlan, g: GuidanceState) -> Option<usize> {
    match g.active_detail_index {
        Some(d) => match spec_detail_ref(p.resolved_legs@, d as int) {
            Some(detail) => if detail.leg_index == g.active_leg_index {
                Some(detail.element_index)
            } else {
                None
            },
            None => None,
        },
        None => None,
    }
}

/// `r` is where guidance is on plan `p`: none without guidance or while a
/// Direct-To is flown; else the guidance, the drawn element of its leg it is
/// at, and the rows its active leg runs between on the anchor rows.
pub open spec fn captured_anchor(p: FlightPlan, r: Option<ActiveGuidanceAnchor>) -> bool {
    match p.guidance {
        None => r is None,
        Some(g) => if g.sequencing_mode == SequencingMode::DirectTo {
            r is None
        } else {
            r matches Some(a) && a.guidance == g && a.active_detail_element_index
                == spec_anchor_element(p, g) && exists|rows: Seq<FlightPlanDisplayRowUiView>|
                #[trigger] anchor_rows_of(p, rows) && (
                text_of(a.from_row_uid),
                text_of(a.to_row_uid),
            ) == spec_active_row_uids(p, p, rows)
        },
    }
}

/// Captures where guidance is on the (normalised) plan, to find it again
/// after the route changes; none without guidance or while a Direct-To is
/// flown.
pub fn capture_active_guidance_anchor(plan: &FlightPlan) -> (r: Option<ActiveGuidanceAnchor>)
    requires
        details_fit(*plan),
        plan.route_component_uids.len() == plan.route_components.len(),
        plan.route_components.len() <= isize::MAX,
    ensures
        captured_anchor(*plan, r),
{
    let g = match &plan.guidance {
        Some(g) => crate::sequencing::duplicate_guidance(g),
        None => {
            return None;
        },
    };
    if g.sequencing_mode == SequencingMode::DirectTo {
        return None;
    }
    let rows = guidance_anchor_display_rows(plan);
    let (from_row_uid, to_row_uid) = active_row_uids_in(plan, rows.as_slice());
    let active_detail_element_index = match g.active_detail_index {
        Some(d) => match guidance_detail_ref_by_index(plan, d) {
            Some(detail) => if detail.leg_index == g.active_leg_index {
                Some(detail.element_index)
            } else {
                None
            },
            None => None,
        },
        None => None,
    };
    Some(ActiveGuidanceAnchor { from_row_uid, to_row_uid, guidance: g, active_detail_element_index })
}

/// The detail that restored guidance takes on leg `l`: the same drawn
/// element of the leg as before when the leg has it, else the leg's first;
/// none past the route's end.
pub open spec fn spec_restored_detail(p: FlightPlan, l: int, element: Option<usize>) -> Option<usize> {
    let legs = p.resolved_legs@;
    let e = match element {
        Some(e) => e as int,
        None => 0,
    };
    if 0 <= l < legs.len() {
        if e < leg_detail_count(legs[l]) {
            Some((details_before(legs, l) + e) as usize)
        } else {
            Some(details_before(legs, l) as usize)
        }
    } else {
        None
    }
}

/// The detail that guidance restored on leg `leg_index` takes.
pub fn active_detail_index_for_restored_leg(
    plan: &FlightPlan,
    leg_index: usize,
    anchor: &ActiveGuidanceAnchor,
) -> (r: Option<usize>)
    requires
        details_fit(*plan),
    ensures
        r == spec_restored_detail(*plan, leg_index as int, anchor.active_detail_element_index),
{
    let n = plan.resolved_legs.len();
    if leg_index >= n {
        return None;
    }
    let first = match first_guidance_detail_index_for_leg(plan, leg_index) {
        Some(f) => f,
        None => 0,
    };
    proof {
        lemma_details_grow(plan.resolved_legs@, leg_index as int + 1, n as int);
    }
    let e = match anchor.active_detail_element_index {
        Some(e) => e,
        None => 0,
    };
    let count = plan.resolved_legs[leg_index].detail_count();
    if e < count {
        Some(first + e)
    } else {
        Some(first)
    }
}

/// The guidance that restoring the anchor tries on leg `l`.
pub open spec fn restored_candidate(p: FlightPlan, a: ActiveGuidanceAnchor, l: int) -> GuidanceState {
    GuidanceState {
        active_leg_index: l as usize,
        active_detail_index: spec_restored_detail(p, l, a.active_detail_element_index),
        display_split_leg_id: Some(p.resolved_legs@[l].id),
        direct_to: None,
        ..a.guidance
    }
}

/// Plan `p` with guidance `g`.
pub open spec fn with_guidance(p: FlightPlan, g: GuidanceState) -> FlightPlan {
    FlightPlan { guidance: Some(g), ..p }
}

/// The rows the anchor's active leg ran between.
pub open spec fn anchor_uids(a: ActiveGuidanceAnchor) -> (Option<Seq<char>>, Option<Seq<char>>) {
    (text_of(a.from_row_uid), text_of(a.to_row_uid))
}

/// `rows` anchor the guidance tried on leg `l`, and its active leg runs
/// between the anchor's rows (`same`) or not.
pub open spec fn candidate_rows(
    p: FlightPlan,
    a: ActiveGuidanceAnchor,
    l: int,
    rows: Seq<FlightPlanDisplayRowUiView>,
    same: bool,
) -> bool {
    let q = with_guidance(p, restored_candidate(p, a, l));
    anchor_rows_of(q, rows) && (spec_active_row_uids(q, q, rows) == anchor_uids(a)) == same
}

/// The guidance that restoring anchor `a` on plan `p` gives: guidance is
/// tried on each leg in turn, `tried` being the rows of each try; the first
/// leg whose rows match the anchor's is revalidated, and without such a leg
/// there is none.
pub open spec fn restore_trace(
    p: FlightPlan,
    a: ActiveGuidanceAnchor,
    tried: Seq<Seq<FlightPlanDisplayRowUiView>>,
    r: Result<Option<GuidanceState>, AppError>,
) -> bool {
    let n = p.resolved_legs.len() as int;
    &&& tried.len() <= n
    &&& forall|l: int|
        0 <= l < tried.len() - 1 ==> candidate_rows(p, a, l, #[trigger] tried[l], false)
    &&& if tried.len() > 0 && candidate_rows(p, a, tried.len() - 1, tried.last(), true) {
        let k = tried.len() - 1;
        let q = with_guidance(p, restored_candidate(p, a, k));
        exists|idrows: Seq<FlightPlanDisplayRowUiView>| #[trigger]
            identity_rows_of(q, idrows) && revalidation_outcome(
                q,
                idrows,
                Some(restored_candidate(p, a, k)),
                r,
            )
    } else {
        &&& tried.len() == n
        &&& (n > 0 ==> candidate_rows(p, a, n - 1, tried.last(), false))
        &&& r matches Ok(None)
    }
}

/// `r` is what restoring anchor `a` on plan `p` gives: none when the anchor
/// recorded no row to go to, else as `restore_trace` describes.
pub open spec fn anchor_restored(
    p: FlightPlan,
    a: ActiveGuidanceAnchor,
    r: Result<Option<GuidanceState>, AppError>,
) -> bool {
    if a.to_row_uid is None {
        r matches Ok(None)
    } else {
        exists|tried: Seq<Seq<FlightPlanDisplayRowUiView>>| #[trigger] restore_trace(p, a, tried, r)
    }
}

fn text_opt_eq(a: &Option<String>, b: &Option<String>) -> (r: bool)
    ensures
        r == (text_of(*a) == text_of(*b)),
{
    match (a, b) {
        (Some(x), Some(y)) => str_eq(x.as_str(), y.as_str()),
        (None, None) => true,
        _ => false,
    }
}

/// Finds guidance again on the rebuilt (normalised) plan: the first leg on
/// which guidance, tried there, runs between the rows the anchor recorded;
/// none when the anchor recorded no row to go to, or no leg fits. The plan
/// is left as it was.
pub fn restore_guidance_from_row_uid_anchor(plan: &mut FlightPlan, anchor: &ActiveGuidanceAnchor) -> (r:
    Result<Option<GuidanceState>, AppError>)
    requires
        details_fit(*old(plan)),
        old(plan).route_component_uids.len() == old(plan).route_components.len(),
        old(plan).route_components.len() <= isize::MAX,
    ensures
        *final(plan) == *old(plan),
        anchor_restored(*old(plan), *anchor, r),
{
    if anchor.to_row_uid.is_none() {
        return Ok(None);
    }
    let ghost p = *plan;
    let original = plan.guidance.take();
    let n = plan.resolved_legs.len();
    let mut l: usize = 0;
    let ghost mut tried: Seq<Seq<FlightPlanDisplayRowUiView>> = Seq::empty();
    while l < n
        invariant
            *plan == (FlightPlan { guidance: plan.guidance, ..p }),
            p == *old(plan),
            anchor.to_row_uid is Some,
            original == p.guidance,
            n == p.resolved_legs.len(),
            details_fit(p),
            p.route_components.len() <= isize::MAX,
            p.route_component_uids.len() == p.route_components.len(),
            l <= n,
            tried.len() == l,
            forall|k: int| 0 <= k < l ==> candidate_rows(p, *anchor, k, #[trigger] tried[k], false),
        decreases n - l,
    {
        let ghost before = tried;
        let element_detail = active_detail_index_for_restored_leg(plan, l, anchor);
        let mut candidate = crate::sequencing::duplicate_guidance(&anchor.guidance);
        candidate.active_leg_index = l;
        candidate.direct_to = None;
        candidate.display_split_leg_id = Some(plan.resolved_legs[l].id.clone());
        candidate.active_detail_index = element_detail;
        plan.guidance = Some(crate::sequencing::duplicate_guidance(&candidate));
        assert(*plan == with_guidance(p, restored_candidate(p, *anchor, l as int)));
        let rows = guidance_anchor_display_rows(plan);
        let (from_uid, to_uid) = active_row_uids_in(plan, rows.as_slice());
        let same = text_opt_eq(&from_uid, &anchor.from_row_uid) && text_opt_eq(
            &to_uid,
            &anchor.to_row_uid,
        );
        proof {
            tried = tried.push(rows@);
            assert(tried[l as int] == rows@);
        }
        if same {
            let idrows = identity_rows(plan);
            let r = revalidate_guidance_with_rows(Some(candidate), plan, idrows.as_slice());
            plan.guidance = original;
            assert(*plan == p);
            assert(candidate_rows(p, *anchor, l as int, tried.last(), true));
            assert(restore_trace(p, *anchor, tried, r));
            return r;
        }
        assert forall|k: int| 0 <= k < l + 1 implies candidate_rows(
            p,
            *anchor,
            k,
            #[trigger] tried[k],
            false,
        ) by {
            if k < l {
                assert(tried[k] == before[k]);
            }
        }
        l = l + 1;
    }
    plan.guidance = original;
    assert(restore_trace(p, *anchor, tried, Ok(None)));
    Ok(None)
}

} // verus!

verus! {

/// Guidance `g` stands on plan `p`: its active leg is a leg of `p`, its
/// active detail a detail of that leg, and its split leg, when it has one,
/// a leg of `p`.
pub open spec fn guidance_on_plan(p: FlightPlan, g: GuidanceState) -> bool {
    let legs = p.resolved_legs@;
    &&& g.active_leg_index < legs.len()
    &&& g.active_detail_index matches Some(d) && details_before(legs, g.active_leg_index as int) <= d
        < details_before(legs, g.active_leg_index as int) + leg_detail_count(
        legs[g.active_leg_index as int],
    )
    &&& g.display_split_leg_id matches Some(id) ==> first_leg_with_id(legs, id@, 0) is Some
}

/// Revalidation gives no guidance for a plan without legs or without
/// guidance; the guidance it keeps off a Direct-To stands on the plan.
pub proof fn law_revalidated_guidance_stands_on_the_plan(
    p: FlightPlan,
    rows: Seq<FlightPlanDisplayRowUiView>,
    g: Option<GuidanceState>,
    r: Result<Option<GuidanceState>, AppError>,
)
    requires
        details_fit(p),
        revalidation_outcome(p, rows, g, r),
    ensures
        p.resolved_legs.len() == 0 || g is None ==> r == Ok::<Option<GuidanceState>, AppError>(None),
        g is Some && g->0.direct_to is None && r is Ok && r->Ok_0 is Some ==> guidance_on_plan(
            p,
            r->Ok_0->0,
        ),
{
    if p.resolved_legs.len() > 0 && g is Some {
        let gs = g->0;
        let legs = p.resolved_legs@;
        let active = if gs.active_leg_index >= legs.len() {
            (legs.len() - 1) as usize
        } else {
            gs.active_leg_index
        };
        lemma_details_grow(legs, active as int, legs.len() as int);
        lemma_details_grow(legs, active as int + 1, legs.len() as int);
    }
}

} // verus!

verus! {

/// Keeps what stays valid of guidance `guidance` on the rebuilt plan, as
/// its own identity rows show it.
pub fn revalidate_guidance_after_plan_edit(guidance: Option<GuidanceState>, plan: &FlightPlan) -> (r:
    Result<Option<GuidanceState>, AppError>)
    requires
        details_fit(*plan),
        plan.route_component_uids.len() >= plan.route_components.len(),
        plan.route_components.len() <= isize::MAX,
    ensures
        exists|rows: Seq<FlightPlanDisplayRowUiView>|
            #[trigger] identity_rows_of(*plan, rows) && revalidation_outcome(*plan, rows, guidance, r),
{
    let rows = identity_rows(plan);
    let r = revalidate_guidance_with_rows(guidance, plan, rows.as_slice());
    assert(identity_rows_of(*plan, rows@));
    r
}

} // verus!

verus! {

/// Every row of `rows` that ends a leg names a leg of plan `p`.
pub open spec fn rows_name_legs_of(p: FlightPlan, rows: Seq<FlightPlanDisplayRowUiView>) -> bool {
    forall|k: int|
        0 <= k < rows.len() && (#[trigger] rows[k]).leg_index is Some ==> rows[k].leg_index->0
            < p.resolved_legs.len()
}

/// The guidance that revalidation keeps, on a Direct-To too, has its active
/// leg and its split leg on the plan, where the plan's rows name its legs.
pub proof fn law_revalidated_direct_to_stands_on_the_plan(
    p: FlightPlan,
    rows: Seq<FlightPlanDisplayRowUiView>,
    g: Option<GuidanceState>,
    r: Result<Option<GuidanceState>, AppError>,
)
    requires
        rows_name_legs_of(p, rows),
        revalidation_outcome(p, rows, g, r),
    ensures
        r is Ok && r->Ok_0 is Some ==> ({
            let out = r->Ok_0->0;
            &&& out.active_leg_index < p.resolved_legs.len()
            &&& out.display_split_leg_id matches Some(id) ==> first_leg_with_id(
                p.resolved_legs@,
                id@,
                0,
            ) is Some
        }),
{
    if p.resolved_legs.len() > 0 && g is Some {
        let gs = g->0;
        match gs.direct_to {
            Some(d) => match d.target_row {
                DirectToTargetRow::Planned { row_id } => {
                    lemma_first_row_range(rows, uid_row_of(row_id.0@), 0);
                },
                _ => {},
            },
            None => {},
        }
    }
}

} // verus!

verus! {

/// Guidance revalidated on a plan by its own rows stands on the plan: its
/// active leg and split leg are the plan's, on a Direct-To too, and off a
/// Direct-To its active detail is a detail of its active leg.
pub proof fn law_guidance_revalidated_by_the_plan_rows_stands_on_the_plan(
    p: FlightPlan,
    g: Option<GuidanceState>,
    r: Result<Option<GuidanceState>, AppError>,
)
    requires
        details_fit(p),
        exists|rows: Seq<FlightPlanDisplayRowUiView>|
            #[trigger] identity_rows_of(p, rows) && revalidation_outcome(p, rows, g, r),
    ensures
        p.resolved_legs.len() == 0 || g is None ==> r == Ok::<Option<GuidanceState>, AppError>(None),
        r is Ok && r->Ok_0 is Some ==> ({
            let out = r->Ok_0->0;
            &&& out.active_leg_index < p.resolved_legs.len()
            &&& out.display_split_leg_id matches Some(id) ==> first_leg_with_id(
                p.resolved_legs@,
                id@,
                0,
            ) is Some
        }),
        g is Some && g->0.direct_to is None && r is Ok && r->Ok_0 is Some ==> guidance_on_plan(
            p,
            r->Ok_0->0,
        ),
{
    let rows = choose|rows: Seq<FlightPlanDisplayRowUiView>|
        #[trigger] identity_rows_of(p, rows) && revalidation_outcome(p, rows, g, r);
    let views = choose|views: Seq<RouteComponentUiView>|
        #[trigger] identity_rows_from(p, no_removals(p.route_components.len() as nat), views, rows);
    law_row_legs_are_legs_of_the_plan(p, views, rows);
    assert forall|k: int| 0 <= k < rows.len() && (#[trigger] rows[k]).leg_index is Some implies rows[k].leg_index->0
        < p.resolved_legs.len() by {
        assert(leg_of_plan(p, rows[k].leg_index));
    }
    law_revalidated_direct_to_stands_on_the_plan(p, rows, g, r);
    law_revalidated_guidance_stands_on_the_plan(p, rows, g, r);
}

} // verus!
