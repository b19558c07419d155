//! Direct-To targets: the planned row that a Direct-To goes to, the row
//! where guidance resumes after it, and the guidance that starts it.
use crate::component_views::{identity_rows_from, project_identity_rows};
use crate::flight_plan::{
    details_before, details_fit, first_guidance_detail_index_for_leg,
    lemma_normal_uids_distinct, lemma_normalized_fits, normalized_from, plan_within_limits,
    FlightPlan, ResolvedLeg,
};
use crate::guidance::{
    DirectToState, DirectToTargetRow, FlightPlanRowId, GuidanceState, ResolvedLegSource,
    SequencingMode,
};
use crate::nav::{nav_ref_eq, same_nav_ref, LatLon, NavRef};
use crate::projection::{law_row_legs_are_legs_of_the_plan, leg_of_plan, target_row_id};
use crate::flight_plan::spec_detail_ref;
use crate::rows::RouteComponentUiView;
use crate::text::string_texts;
use crate::route::{AppError, AppErrorKind};
use crate::route_edits::error_of;
use crate::row_guidance::{
    first_row, find_row_by_uid, lemma_first_row_range, uid_row_of, waypoint_row_at,
};
use crate::rows::{FlightPlanDisplayRowKind, FlightPlanDisplayRowUiView};
use crate::sequencing::{
    detail_on_active_leg, law_activation_starts_at_the_first_detail_of_its_leg, spec_restore_direct_to,
    lemma_first_detail_names_its_leg, resume_leg_index_after_leg, spec_resume_leg_after,
};
use crate::text::{decimal, format_hex16, hex16, owned, push_decimal, push_str};
use vstd::prelude::*;

verus! {

/// A planned row that a Direct-To can go to: the row, the leg that ends
/// there, and the row where guidance resumes afterwards.
pub struct PlannedDirectToTarget {
    pub row_id: FlightPlanRowId,
    pub target_leg_index: Option<usize>,
    pub resume_row_id: Option<FlightPlanRowId>,
}

/// A planned target as plain values.
pub open spec fn target_view(t: PlannedDirectToTarget) -> (Seq<char>, Option<usize>, Option<Seq<char>>) {
    (
        t.row_id.0@,
        t.target_leg_index,
        match t.resume_row_id {
            Some(r) => Some(r.0@),
            None => None,
        },
    )
}

/// A waypoint row of leg `l`.
pub open spec fn leg_waypoint_row_of(l: usize) -> spec_fn(FlightPlanDisplayRowUiView) -> bool {
    |r: FlightPlanDisplayRowUiView| r.row_kind == FlightPlanDisplayRowKind::Waypoint && r.leg_index
        == Some(l)
}

/// The planned row of leg `l`: its only waypoint row; an error when it has
/// none or several.
pub open spec fn spec_planned_row_id(rows: Seq<FlightPlanDisplayRowUiView>, l: usize) -> Result<
    Seq<char>,
    (AppErrorKind, Seq<char>),
> {
    match first_row(rows, leg_waypoint_row_of(l), 0) {
        None => Err(
            (
                AppErrorKind::InvalidFlightPlan,
                "resolved leg "@ + decimal(l as nat) + " has no projected waypoint row"@,
            ),
        ),
        Some(k) => if first_row(rows, leg_waypoint_row_of(l), k + 1) is Some {
            Err(
                (
                    AppErrorKind::InvalidFlightPlan,
                    "resolved leg "@ + decimal(l as nat) + " projects to multiple waypoint rows"@,
                ),
            )
        } else {
            Ok(rows[k].uid@)
        },
    }
}


/// The first waypoint row of leg `l` from row `start` on.
fn find_leg_waypoint_row(rows: &[FlightPlanDisplayRowUiView], l: usize, start: usize) -> (r: Option<
    usize,
>)
    ensures
        r == match first_row(rows@, leg_waypoint_row_of(l), start as int) {
            Some(k) => Some(k as usize),
            None => None,
        },
        first_row(rows@, leg_waypoint_row_of(l), start as int) matches Some(k) ==> 0 <= start <= k
            < rows@.len(),
{
    let ghost pred = leg_waypoint_row_of(l);
    proof {
        lemma_first_row_range(rows@, pred, start as int);
    }
    let mut i: usize = start;
    while i < rows.len()
        invariant
            pred == leg_waypoint_row_of(l),
            start <= i,
            first_row(rows@, pred, start as int) matches Some(k) ==> i <= k < rows@.len(),
            i <= rows@.len() ==> first_row(rows@, pred, start as int) == first_row(
                rows@,
                pred,
                i as int,
            ),
        decreases rows@.len() - i,
    {
        let on_leg = match rows[i].leg_index {
            Some(x) => x == l,
            None => false,
        };
        let hit = rows[i].row_kind == FlightPlanDisplayRowKind::Waypoint && on_leg;
        assert(hit == pred(rows@[i as int]));
        if hit {
            return Some(i);
        }
        proof {
            lemma_first_row_range(rows@, pred, i + 1);
        }
        i = i + 1;
    }
    None
}

fn leg_message(l: usize, tail: &str) -> (r: String)
    ensures
        r@ == "resolved leg "@ + decimal(l as nat) + tail@,
{
    let mut m = owned("resolved leg ");
    push_decimal(&mut m, l as u64);
    push_str(&mut m, tail);
    m
}

/// The id of the planned row of leg `leg_index` among `rows`.
pub fn planned_row_id_for_leg_index(rows: &[FlightPlanDisplayRowUiView], leg_index: usize) -> (r:
    Result<FlightPlanRowId, AppError>)
    ensures
        match spec_planned_row_id(rows@, leg_index) {
            Ok(uid) => r matches Ok(id) && id.0@ == uid,
            Err(e) => r matches Err(x) && error_of(x) == e,
        },
{
    let k = match find_leg_waypoint_row(rows, leg_index, 0) {
        Some(k) => k,
        None => {
            return Err(
                AppError {
                    kind: AppErrorKind::InvalidFlightPlan,
                    message: leg_message(leg_index, " has no projected waypoint row"),
                },
            );
        },
    };
    let n = rows.len();
    assert(k < n);
    if find_leg_waypoint_row(rows, leg_index, k + 1).is_some() {
        return Err(
            AppError {
                kind: AppErrorKind::InvalidFlightPlan,
                message: leg_message(leg_index, " projects to multiple waypoint rows"),
            },
        );
    }
    Ok(FlightPlanRowId(rows[k].uid.clone()))
}

/// The leg starts at component `c`: it was resolved from `c`, or bridges
/// from it.
pub open spec fn starts_at_component(leg: ResolvedLeg, c: int) -> bool {
    match leg.source {
        ResolvedLegSource::RouteComponent { component_index } => component_index == c,
        ResolvedLegSource::SyntheticBridge { from_component_index, .. } => from_component_index == c,
    }
}

/// Whether the leg starts at component `component_index`.
pub fn leg_starts_at_route_component(leg: &ResolvedLeg, component_index: usize) -> (r: bool)
    ensures
        r == starts_at_component(*leg, component_index as int),
{
    match leg.source {
        ResolvedLegSource::RouteComponent { component_index: source } => source == component_index,
        ResolvedLegSource::SyntheticBridge { from_component_index, .. } => from_component_index
            == component_index,
    }
}

/// The first leg, from leg `i` on, that starts at component `c` from `n`.
pub open spec fn first_leg_from(legs: Seq<ResolvedLeg>, c: int, n: NavRef, i: int) -> Option<int>
    decreases legs.len() - i,
{
    if i < 0 || i >= legs.len() {
        None
    } else if starts_at_component(legs[i], c) && same_nav_ref(legs[i].from, n) {
        Some(i)
    } else {
        first_leg_from(legs, c, n, i + 1)
    }
}

proof fn lemma_first_leg_from_range(legs: Seq<ResolvedLeg>, c: int, n: NavRef, i: int)
    requires
        0 <= i,
    ensures
        first_leg_from(legs, c, n, i) matches Some(k) ==> i <= k < legs.len(),
    decreases legs.len() - i,
{
    if i < legs.len() {
        lemma_first_leg_from_range(legs, c, n, i + 1);
    }
}

/// Where guidance resumes after a Direct-To to `target` on a row of leg
/// `target_leg` in component `component`: after that leg; for a row with
/// no leg, on the first leg that starts at its component from the target.
pub open spec fn spec_resume_leg(
    p: FlightPlan,
    target_leg: Option<usize>,
    component: Option<usize>,
    target: NavRef,
) -> Option<int> {
    match target_leg {
        Some(t) => spec_resume_leg_after(p, t as int),
        None => match component {
            Some(c) => first_leg_from(p.resolved_legs@, c as int, target, 0),
            None => None,
        },
    }
}

/// Where guidance resumes after a Direct-To to `target` on a row of leg
/// `target_leg` in component `component`.
pub fn resume_leg_index(
    plan: &FlightPlan,
    target_leg: Option<usize>,
    component: Option<usize>,
    target: &NavRef,
) -> (r: Option<usize>)
    ensures
        r == match spec_resume_leg(*plan, target_leg, component, *target) {
            Some(i) => Some(i as usize),
            None => None,
        },
{
    match target_leg {
        Some(t) => resume_leg_index_after_leg(plan, t),
        None => match component {
            Some(c) => {
                let ghost legs = plan.resolved_legs@;
                proof {
                    lemma_first_leg_from_range(legs, c as int, *target, 0);
                }
                let mut i: usize = 0;
                while i < plan.resolved_legs.len()
                    invariant
                        legs == plan.resolved_legs@,
                        target_leg is None,
                        component == Some(c),
                        i <= legs.len(),
                        first_leg_from(legs, c as int, *target, 0) matches Some(k) ==> i <= k
                            < legs.len(),
                        first_leg_from(legs, c as int, *target, 0) == first_leg_from(
                            legs,
                            c as int,
                            *target,
                            i as int,
                        ),
                    decreases legs.len() - i,
                {
                    let leg = &plan.resolved_legs[i];
                    if leg_starts_at_route_component(leg, c) && nav_ref_eq(&leg.from, target) {
                        return Some(i);
                    }
                    proof {
                        lemma_first_leg_from_range(legs, c as int, *target, i + 1);
                    }
                    i = i + 1;
                }
                None
            },
            None => None,
        },
    }
}

/// The Direct-To target that row `k` offers, going to `target`: the leg
/// that ends at the row, and the planned row where guidance resumes.
pub open spec fn spec_planned_target(
    p: FlightPlan,
    rows: Seq<FlightPlanDisplayRowUiView>,
    k: int,
    target: NavRef,
) -> Result<(Option<usize>, Option<Seq<char>>), (AppErrorKind, Seq<char>)> {
    let row = rows[k];
    match spec_resume_leg(p, row.leg_index, row.component_index, target) {
        None => Ok((row.leg_index, None)),
        Some(l) => match spec_planned_row_id(rows, l as usize) {
            Ok(uid) => Ok((row.leg_index, Some(uid))),
            Err(e) => Err(e),
        },
    }
}

fn planned_target_of_row(
    plan: &FlightPlan,
    rows: &[FlightPlanDisplayRowUiView],
    k: usize,
    target: &NavRef,
    row_id: FlightPlanRowId,
) -> (r: Result<PlannedDirectToTarget, AppError>)
    requires
        k < rows@.len(),
    ensures
        match spec_planned_target(*plan, rows@, k as int, *target) {
            Ok((leg, resume)) => r matches Ok(t) && target_view(t) == (row_id.0@, leg, resume),
            Err(e) => r matches Err(x) && error_of(x) == e,
        },
{
    let row = &rows[k];
    let resume = resume_leg_index(plan, row.leg_index, row.component_index, target);
    let resume_row_id = match resume {
        Some(l) => match planned_row_id_for_leg_index(rows, l) {
            Ok(id) => Some(id),
            Err(e) => {
                return Err(e);
            },
        },
        None => None,
    };
    Ok(PlannedDirectToTarget { row_id, target_leg_index: row.leg_index, resume_row_id })
}

fn row_message(head: &str, id: &str) -> (r: String)
    ensures
        r@ == head@ + id@,
{
    let mut m = owned(head);
    push_str(&mut m, id);
    m
}

/// The Direct-To to row `id`: the row must exist, be a waypoint row and
/// show a location; that location, and the target the row offers.
pub open spec fn spec_target_for_row_id(
    p: FlightPlan,
    rows: Seq<FlightPlanDisplayRowUiView>,
    id: Seq<char>,
) -> Result<(NavRef, (Option<usize>, Option<Seq<char>>)), (AppErrorKind, Seq<char>)> {
    match first_row(rows, uid_row_of(id), 0) {
        None => Err((AppErrorKind::InvalidFlightPlan, "direct-to target row does not exist: "@ + id)),
        Some(k) => if rows[k].row_kind != FlightPlanDisplayRowKind::Waypoint {
            Err((AppErrorKind::UnsupportedOperation, "direct-to target row is not a waypoint: "@ + id))
        } else {
            match rows[k].nav_ref {
                None => Err(
                    (AppErrorKind::InvalidFlightPlan, "direct-to target row has no location: "@ + id),
                ),
                Some(target) => match spec_planned_target(p, rows, k, target) {
                    Ok(v) => Ok((target, v)),
                    Err(e) => Err(e),
                },
            }
        },
    }
}

/// The Direct-To target that row `row_id` among `rows` offers.
pub fn planned_direct_to_target_for_row_id(
    plan: &FlightPlan,
    rows: &[FlightPlanDisplayRowUiView],
    row_id: &FlightPlanRowId,
) -> (r: Result<(NavRef, PlannedDirectToTarget), AppError>)
    ensures
        match spec_target_for_row_id(*plan, rows@, row_id.0@) {
            Ok((target, (leg, resume))) => r matches Ok(v) && v.0 == target && target_view(v.1) == (
                row_id.0@,
                leg,
                resume,
            ),
            Err(e) => r matches Err(x) && error_of(x) == e,
        },
{
    let id = row_id.as_str();
    let k = match find_row_by_uid(rows, id) {
        Some(k) => k,
        None => {
            return Err(
                AppError {
                    kind: AppErrorKind::InvalidFlightPlan,
                    message: row_message("direct-to target row does not exist: ", id),
                },
            );
        },
    };
    assert(k < rows@.len());
    if rows[k].row_kind != FlightPlanDisplayRowKind::Waypoint {
        return Err(
            AppError {
                kind: AppErrorKind::UnsupportedOperation,
                message: row_message("direct-to target row is not a waypoint: ", id),
            },
        );
    }
    let target = match &rows[k].nav_ref {
        Some(n) => n.duplicate(),
        None => {
            return Err(
                AppError {
                    kind: AppErrorKind::InvalidFlightPlan,
                    message: row_message("direct-to target row has no location: ", id),
                },
            );
        },
    };
    match planned_target_of_row(plan, rows, k, &target, FlightPlanRowId(row_id.0.clone())) {
        Ok(t) => Ok((target, t)),
        Err(e) => Err(e),
    }
}

/// The Direct-To targets that the waypoint rows showing `target` offer, in
/// row order; the first error among them, if any.
pub open spec fn spec_targets_upto(
    p: FlightPlan,
    rows: Seq<FlightPlanDisplayRowUiView>,
    target: NavRef,
    n: int,
) -> Result<Seq<(Seq<char>, Option<usize>, Option<Seq<char>>)>, (AppErrorKind, Seq<char>)>
    decreases n,
{
    if n <= 0 {
        Ok(Seq::empty())
    } else {
        match spec_targets_upto(p, rows, target, n - 1) {
            Err(e) => Err(e),
            Ok(v) => if waypoint_row_at(rows[n - 1], target) {
                match spec_planned_target(p, rows, n - 1, target) {
                    Ok((leg, resume)) => Ok(v.push((rows[n - 1].uid@, leg, resume))),
                    Err(e) => Err(e),
                }
            } else {
                Ok(v)
            },
        }
    }
}

/// The Direct-To targets that the waypoint rows showing `target` offer.
pub fn planned_direct_to_targets_for_nav_ref(
    plan: &FlightPlan,
    rows: &[FlightPlanDisplayRowUiView],
    target: &NavRef,
) -> (r: Result<Vec<PlannedDirectToTarget>, AppError>)
    ensures
        match spec_targets_upto(*plan, rows@, *target, rows@.len() as int) {
            Ok(v) => r matches Ok(ts) && ts@.len() == v.len() && forall|i: int|
                0 <= i < v.len() ==> target_view(#[trigger] ts@[i]) == v[i],
            Err(e) => r matches Err(x) && error_of(x) == e,
        },
{
    let mut ts: Vec<PlannedDirectToTarget> = Vec::new();
    let mut i: usize = 0;
    while i < rows.len()
        invariant
            i <= rows@.len(),
            spec_targets_upto(*plan, rows@, *target, i as int) matches Ok(v) && ts@.len() == v.len()
                && forall|j: int| 0 <= j < v.len() ==> target_view(#[trigger] ts@[j]) == v[j],
        decreases rows@.len() - i,
    {
        let row = &rows[i];
        let shows = row.row_kind == FlightPlanDisplayRowKind::Waypoint && match &row.nav_ref {
            Some(m) => nav_ref_eq(m, target),
            None => false,
        };
        if shows {
            match planned_target_of_row(plan, rows, i, target, FlightPlanRowId(row.uid.clone())) {
                Ok(t) => {
                    ts.push(t);
                },
                Err(e) => {
                    proof {
                        lemma_targets_error_stays(*plan, rows@, *target, i + 1, rows@.len() as int);
                    }
                    return Err(e);
                },
            }
        }
        i = i + 1;
    }
    Ok(ts)
}

/// Once gathering the targets fails, it fails with the same error.
proof fn lemma_targets_error_stays(
    p: FlightPlan,
    rows: Seq<FlightPlanDisplayRowUiView>,
    target: NavRef,
    m: int,
    n: int,
)
    requires
        0 <= m <= n,
        spec_targets_upto(p, rows, target, m) is Err,
    ensures
        spec_targets_upto(p, rows, target, n) == spec_targets_upto(p, rows, target, m),
    decreases n - m,
{
    if m < n {
        lemma_targets_error_stays(p, rows, target, m, n - 1);
    }
}

/// `flight-plan-row:{counter:016x}`.
pub open spec fn temporary_row_id(counter: u64) -> Seq<char> {
    "flight-plan-row:"@ + hex16(counter)
}

/// The id of a temporary row for an off-plan Direct-To: made from the
/// plan's uid counter.
pub fn allocate_temporary_direct_to_row_id(plan: &FlightPlan) -> (r: FlightPlanRowId)
    ensures
        r.0@ == temporary_row_id(plan.route_component_uid_counter),
{
    let mut s = owned("flight-plan-row:");
    let hex = format_hex16(plan.route_component_uid_counter);
    push_str(&mut s, hex.as_str());
    FlightPlanRowId(s)
}

/// No component is marked removable.
pub open spec fn no_removals(n: nat) -> Seq<bool> {
    Seq::new(n, |i: int| false)
}

/// `rows` are the display rows of `p` with no component active or marked
/// removable; what the Direct-To functions read of a row (its uid, kind,
/// location, leg and component) does not depend on removability.
pub open spec fn identity_rows_of(p: FlightPlan, rows: Seq<FlightPlanDisplayRowUiView>) -> bool {
    exists|views: Seq<RouteComponentUiView>|
        #[trigger] identity_rows_from(p, no_removals(p.route_components.len() as nat), views, rows)
}

/// The display rows of the plan with no component active or marked
/// removable.
pub fn identity_rows(plan: &FlightPlan) -> (r: Vec<FlightPlanDisplayRowUiView>)
    requires
        details_fit(*plan),
        plan.route_component_uids.len() >= plan.route_components.len(),
        plan.route_components.len() <= isize::MAX,
    ensures
        identity_rows_of(*plan, r@),
{
    let n = plan.route_components.len();
    let mut removable: Vec<bool> = Vec::new();
    let mut i: usize = 0;
    while i < n
        invariant
            i <= n,
            removable@ == no_removals(i as nat),
        decreases n - i,
    {
        removable.push(false);
        assert(removable@ =~= no_removals((i + 1) as nat));
        i = i + 1;
    }
    project_identity_rows(plan, removable.as_slice())
}

/// A normalised plan has a uid for each component.
pub proof fn lemma_normalized_uids(p: FlightPlan, n: FlightPlan)
    requires
        normalized_from(p, n),
        plan_within_limits(p),
    ensures
        n.route_component_uids.len() == n.route_components.len(),
        details_fit(n),
{
    lemma_normal_uids_distinct(
        string_texts(p.route_component_uids@),
        p.route_components.len() as nat,
        p.route_component_uid_counter as int,
    );
    assert(string_texts(n.route_component_uids@).len() == n.route_component_uids@.len());
    lemma_normalized_fits(p, n);
}

/// The guidance `g` starts a Direct-To from `start` to `target` on plan `n`
/// with `target_leg` ending at the target row: the leg that ends there
/// becomes active (else the active leg stays, or the first leg), at its
/// first detail, split at that leg, towards the row `row_id` (planned or
/// temporary) and resuming at `resume`.
pub open spec fn direct_to_guidance(
    n: FlightPlan,
    g: Option<GuidanceState>,
    start: NavRef,
    target: NavRef,
    target_leg: Option<usize>,
    planned: bool,
    row_id: Seq<char>,
    resume: Option<Seq<char>>,
) -> bool {
    let legs = n.resolved_legs@;
    &&& g matches Some(gs)
    &&& gs.active_leg_index == match target_leg {
        Some(t) => t,
        None => match n.guidance {
            Some(old) => old.active_leg_index,
            None => 0,
        },
    }
    &&& gs.active_detail_index == match target_leg {
        Some(t) => if t < legs.len() {
            Some(details_before(legs, t as int) as usize)
        } else {
            None
        },
        None => None,
    }
    &&& gs.display_split_leg_id == match target_leg {
        Some(t) => if t < legs.len() {
            Some(legs[t as int].id)
        } else {
            None
        },
        None => None,
    }
    &&& gs.sequencing_mode == SequencingMode::DirectTo
    &&& gs.suspend_reason is None
    &&& gs.direct_to matches Some(d)
    &&& d.start == start
    &&& d.target == target
    &&& d.target_row is Planned == planned
    &&& target_row_id(d) == row_id
    &&& match d.resume_row_id {
        Some(r) => resume == Some(r.0@),
        None => resume is None,
    }
}

/// The guidance of a Direct-To.
fn start_direct_to(
    plan: &FlightPlan,
    start: NavRef,
    target: NavRef,
    target_leg: Option<usize>,
    target_row: DirectToTargetRow,
    resume_row_id: Option<FlightPlanRowId>,
) -> (g: GuidanceState)
    requires
        details_fit(*plan),
    ensures
        direct_to_guidance(
            *plan,
            Some(g),
            start,
            target,
            target_leg,
            target_row is Planned,
            target_row_id(
                DirectToState { start, target, target_row, resume_row_id: resume_row_id },
            ),
            match resume_row_id {
                Some(r) => Some(r.0@),
                None => None,
            },
        ),
{
    let active_leg_index = match target_leg {
        Some(t) => t,
        None => match &plan.guidance {
            Some(old) => old.active_leg_index,
            None => 0,
        },
    };
    let active_detail_index = match target_leg {
        Some(t) => first_guidance_detail_index_for_leg(plan, t),
        None => None,
    };
    let display_split_leg_id = match target_leg {
        Some(t) => if t < plan.resolved_legs.len() {
            Some(plan.resolved_legs[t].id.clone())
        } else {
            None
        },
        None => None,
    };
    GuidanceState {
        active_leg_index,
        active_detail_index,
        display_split_leg_id,
        sequencing_mode: SequencingMode::DirectTo,
        direct_to: Some(DirectToState { start, target, target_row, resume_row_id }),
        suspend_reason: None,
    }
}

/// The outcome of a Direct-To to `target` on the normalised plan `n` with
/// identity rows `rows`: when exactly one planned row shows the target, to
/// that row; otherwise to a temporary row.
pub open spec fn direct_to_outcome(
    n: FlightPlan,
    rows: Seq<FlightPlanDisplayRowUiView>,
    from_position: LatLon,
    target: NavRef,
    r: Result<FlightPlan, AppError>,
) -> bool {
    match spec_targets_upto(n, rows, target, rows.len() as int) {
        Err(e) => r matches Err(x) && error_of(x) == e,
        Ok(ts) => r matches Ok(q) && q == (FlightPlan { guidance: q.guidance, ..n })
            && if ts.len() == 1 {
            direct_to_guidance(
                n,
                q.guidance,
                NavRef::LatLon(from_position),
                target,
                ts[0].1,
                true,
                ts[0].0,
                ts[0].2,
            )
        } else {
            direct_to_guidance(
                n,
                q.guidance,
                NavRef::LatLon(from_position),
                target,
                None,
                false,
                temporary_row_id(n.route_component_uid_counter),
                None,
            )
        },
    }
}

/// Starts a Direct-To from `from_position` to `target`, on the normalised
/// plan.
pub fn activate_direct_to(plan: FlightPlan, from_position: LatLon, target: NavRef) -> (r: Result<
    FlightPlan,
    AppError,
>)
    requires
        plan_within_limits(plan),
        plan.route_components.len() <= isize::MAX,
    ensures
        exists|n: FlightPlan, rows: Seq<FlightPlanDisplayRowUiView>|
            #![trigger identity_rows_of(n, rows)]
            normalized_from(plan, n) && identity_rows_of(n, rows) && direct_to_outcome(
                n,
                rows,
                from_position,
                target,
                r,
            ),
{
    let ghost p = plan;
    let plan = plan.normalized();
    proof {
        lemma_normalized_uids(p, plan);
    }
    let rows = identity_rows(&plan);
    let targets = match planned_direct_to_targets_for_nav_ref(&plan, rows.as_slice(), &target) {
        Ok(ts) => ts,
        Err(e) => {
            assert(direct_to_outcome(plan, rows@, from_position, target, Err(e)));
            return Err(e);
        },
    };
    let ghost ts = targets@;
    let (target_leg, target_row, resume_row_id) = if targets.len() == 1 {
        let t = &targets[0];
        let resume = match &t.resume_row_id {
            Some(id) => Some(FlightPlanRowId(id.0.clone())),
            None => None,
        };
        (
            t.target_leg_index,
            DirectToTargetRow::Planned { row_id: FlightPlanRowId(t.row_id.0.clone()) },
            resume,
        )
    } else {
        (
            None,
            DirectToTargetRow::Temporary { row_id: allocate_temporary_direct_to_row_id(&plan) },
            None,
        )
    };
    let g = start_direct_to(
        &plan,
        NavRef::LatLon(from_position),
        target,
        target_leg,
        target_row,
        resume_row_id,
    );
    let ghost n = plan;
    let r = FlightPlan { guidance: Some(g), ..plan };
    assert(direct_to_outcome(n, rows@, from_position, target, Ok(r)));
    Ok(r)
}

/// The outcome of a Direct-To to row `row_id` on the normalised plan `n`
/// with identity rows `rows`.
pub open spec fn direct_to_row_outcome(
    n: FlightPlan,
    rows: Seq<FlightPlanDisplayRowUiView>,
    from_position: LatLon,
    row_id: Seq<char>,
    r: Result<FlightPlan, AppError>,
) -> bool {
    match spec_target_for_row_id(n, rows, row_id) {
        Err(e) => r matches Err(x) && error_of(x) == e,
        Ok((target, (leg, resume))) => r matches Ok(q) && q == (FlightPlan {
            guidance: q.guidance,
            ..n
        }) && direct_to_guidance(
            n,
            q.guidance,
            NavRef::LatLon(from_position),
            target,
            leg,
            true,
            row_id,
            resume,
        ),
    }
}

/// Starts a Direct-To from `from_position` to the planned row
/// `target_row_id`, on the normalised plan.
pub fn activate_direct_to_row(plan: FlightPlan, from_position: LatLon, target_row_id: &FlightPlanRowId) -> (r:
    Result<FlightPlan, AppError>)
    requires
        plan_within_limits(plan),
        plan.route_components.len() <= isize::MAX,
    ensures
        exists|n: FlightPlan, rows: Seq<FlightPlanDisplayRowUiView>|
            #![trigger identity_rows_of(n, rows)]
            normalized_from(plan, n) && identity_rows_of(n, rows) && direct_to_row_outcome(
                n,
                rows,
                from_position,
                target_row_id.0@,
                r,
            ),
{
    let ghost p = plan;
    let plan = plan.normalized();
    proof {
        lemma_normalized_uids(p, plan);
    }
    let rows = identity_rows(&plan);
    let (target, planned) = match planned_direct_to_target_for_row_id(
        &plan,
        rows.as_slice(),
        target_row_id,
    ) {
        Ok(v) => v,
        Err(e) => {
            assert(direct_to_row_outcome(plan, rows@, from_position, target_row_id.0@, Err(e)));
            return Err(e);
        },
    };
    let PlannedDirectToTarget { row_id, target_leg_index, resume_row_id } = planned;
    let g = start_direct_to(
        &plan,
        NavRef::LatLon(from_position),
        target,
        target_leg_index,
        DirectToTargetRow::Planned { row_id },
        resume_row_id,
    );
    let ghost n = plan;
    let r = FlightPlan { guidance: Some(g), ..plan };
    assert(direct_to_row_outcome(n, rows@, from_position, target_row_id.0@, Ok(r)));
    Ok(r)
}

/// The planned row that a Direct-To targets, among `rows`; none for a
/// temporary target.
pub open spec fn spec_direct_to_target_row(
    rows: Seq<FlightPlanDisplayRowUiView>,
    d: DirectToState,
) -> Option<int> {
    match d.target_row {
        DirectToTargetRow::Planned { row_id } => first_row(rows, uid_row_of(row_id.0@), 0),
        DirectToTargetRow::Temporary { .. } => None,
    }
}

/// The place, among `rows`, of the planned row a Direct-To targets.
pub fn direct_to_target_row(rows: &[FlightPlanDisplayRowUiView], direct_to: &DirectToState) -> (r:
    Option<usize>)
    ensures
        r == match spec_direct_to_target_row(rows@, *direct_to) {
            Some(k) => Some(k as usize),
            None => None,
        },
        spec_direct_to_target_row(rows@, *direct_to) matches Some(k) ==> 0 <= k < rows@.len(),
{
    match &direct_to.target_row {
        DirectToTargetRow::Planned { row_id } => find_row_by_uid(rows, row_id.as_str()),
        DirectToTargetRow::Temporary { .. } => None,
    }
}

/// The leg that ends at the planned row a Direct-To targets.
pub fn direct_to_target_leg_index(rows: &[FlightPlanDisplayRowUiView], direct_to: &DirectToState) -> (r:
    Option<usize>)
    ensures
        r == match spec_direct_to_target_row(rows@, *direct_to) {
            Some(k) => rows@[k].leg_index,
            None => None,
        },
{
    match direct_to_target_row(rows, direct_to) {
        Some(k) => rows[k].leg_index,
        None => None,
    }
}

/// The leg of the row where guidance resumes after a Direct-To.
pub fn direct_to_resume_leg_index(rows: &[FlightPlanDisplayRowUiView], direct_to: &DirectToState) -> (r:
    Option<usize>)
    ensures
        r == match direct_to.resume_row_id {
            Some(id) => match first_row(rows@, uid_row_of(id.0@), 0) {
                Some(k) => rows@[k].leg_index,
                None => None,
            },
            None => None,
        },
{
    match &direct_to.resume_row_id {
        Some(id) => match find_row_by_uid(rows, id.as_str()) {
            Some(k) => rows[k].leg_index,
            None => None,
        },
        None => None,
    }
}

/// The component that guidance is in: the target row's component during a
/// Direct-To; otherwise the component the active leg was resolved from,
/// none for a bridge or a leg past the route's end.
pub open spec fn spec_active_component(
    p: FlightPlan,
    rows: Seq<FlightPlanDisplayRowUiView>,
    g: GuidanceState,
) -> Option<usize> {
    if g.sequencing_mode == SequencingMode::DirectTo {
        match g.direct_to {
            Some(d) => match spec_direct_to_target_row(rows, d) {
                Some(k) => rows[k].component_index,
                None => None,
            },
            None => None,
        }
    } else if g.active_leg_index < p.resolved_legs.len() {
        match p.resolved_legs@[g.active_leg_index as int].source {
            ResolvedLegSource::RouteComponent { component_index } => Some(component_index),
            ResolvedLegSource::SyntheticBridge { .. } => None,
        }
    } else {
        None
    }
}

/// The component that guidance is in, with `rows` the plan's identity rows.
pub fn active_component_index_for_guidance(
    plan: &FlightPlan,
    rows: &[FlightPlanDisplayRowUiView],
    guidance: &GuidanceState,
) -> (r: Option<usize>)
    ensures
        r == spec_active_component(*plan, rows@, *guidance),
{
    if guidance.sequencing_mode == SequencingMode::DirectTo {
        match &guidance.direct_to {
            Some(d) => match direct_to_target_row(rows, d) {
                Some(k) => rows[k].component_index,
                None => None,
            },
            None => None,
        }
    } else if guidance.active_leg_index < plan.resolved_legs.len() {
        match plan.resolved_legs[guidance.active_leg_index].source {
            ResolvedLegSource::RouteComponent { component_index } => Some(component_index),
            ResolvedLegSource::SyntheticBridge { .. } => None,
        }
    } else {
        None
    }
}

} // verus!

verus! {

proof fn lemma_target_legs_are_row_legs(
    p: FlightPlan,
    rows: Seq<FlightPlanDisplayRowUiView>,
    target: NavRef,
    m: int,
)
    requires
        0 <= m <= rows.len(),
        spec_targets_upto(p, rows, target, m) is Ok,
    ensures
        forall|j: int|
            0 <= j < spec_targets_upto(p, rows, target, m)->Ok_0.len() ==> exists|k: int|
                0 <= k < m && (#[trigger] spec_targets_upto(p, rows, target, m)->Ok_0[j]).1
                    == (#[trigger] rows[k]).leg_index,
    decreases m,
{
    if m > 0 {
        lemma_target_legs_are_row_legs(p, rows, target, m - 1);
        let before = spec_targets_upto(p, rows, target, m - 1)->Ok_0;
        let all = spec_targets_upto(p, rows, target, m)->Ok_0;
        assert forall|j: int| 0 <= j < all.len() implies exists|k: int|
            0 <= k < m && (#[trigger] all[j]).1 == (#[trigger] rows[k]).leg_index by {
            if j < before.len() {
                assert(all[j] == before[j]);
                let k = choose|k: int| 0 <= k < m - 1 && (#[trigger] before[j]).1 == (#[trigger] rows[k]).leg_index;
                assert(all[j].1 == rows[k].leg_index);
            } else {
                assert(all[j].1 == rows[m - 1].leg_index);
            }
        }
    }
}

/// A Direct-To starts from guidance that stands on the plan where it has a
/// planned leg: that leg becomes active at its first detail. Without a
/// planned leg for its target (off the route, or at a row no leg ends at)
/// it keeps the leg guidance was on, with no active detail, and the first
/// leg when there was no guidance.
pub proof fn law_direct_to_keeps_the_active_leg_without_a_planned_leg(
    n: FlightPlan,
    rows: Seq<FlightPlanDisplayRowUiView>,
    from_position: LatLon,
    target: NavRef,
    q: FlightPlan,
)
    requires
        details_fit(n),
        identity_rows_of(n, rows),
        direct_to_outcome(n, rows, from_position, target, Ok(q)),
    ensures
        q.guidance matches Some(gs) && gs.direct_to is Some && gs.sequencing_mode
            == SequencingMode::DirectTo,
        q.guidance->0.active_detail_index is None ==> q.guidance->0.active_leg_index == match n.guidance {
            Some(old) => old.active_leg_index,
            None => 0,
        },
        q.guidance->0.direct_to->0.target_row is Temporary ==> q.guidance->0.active_detail_index is None,
        q.guidance->0.active_detail_index is Some ==> ({
            let gs = q.guidance->0;
            &&& gs.active_leg_index < n.resolved_legs.len()
            &&& spec_detail_ref(n.resolved_legs@, gs.active_detail_index->0 as int) matches Some(r)
            &&& r.leg_index == gs.active_leg_index
            &&& r.element_index == 0
        }),
{
    let views = choose|views: Seq<RouteComponentUiView>|
        #[trigger] identity_rows_from(n, no_removals(n.route_components.len() as nat), views, rows);
    law_row_legs_are_legs_of_the_plan(n, views, rows);
    lemma_target_legs_are_row_legs(n, rows, target, rows.len() as int);
    let ts = spec_targets_upto(n, rows, target, rows.len() as int)->Ok_0;
    let gs = q.guidance->0;
    if ts.len() == 1 {
        let k = choose|k: int| 0 <= k < rows.len() && (#[trigger] ts[0]).1 == (#[trigger] rows[k]).leg_index;
        assert(leg_of_plan(n, rows[k].leg_index));
        match ts[0].1 {
            Some(t) => {
                lemma_first_detail_names_its_leg(n, t as int);
            },
            None => {},
        }
    }
}

} // verus!

verus! {

/// A Direct-To to a target without a planned leg, such as one off the
/// route, and then a restore of the plan bring guidance back to the leg it
/// was on before the Direct-To, at that leg's first detail.
pub proof fn law_restoring_after_a_direct_to_returns_to_the_previous_leg(
    n: FlightPlan,
    rows: Seq<FlightPlanDisplayRowUiView>,
    from_position: LatLon,
    target: NavRef,
    q: FlightPlan,
    out: GuidanceState,
)
    requires
        details_fit(n),
        identity_rows_of(n, rows),
        direct_to_outcome(n, rows, from_position, target, Ok(q)),
        n.guidance is Some,
        n.guidance->0.active_leg_index < n.resolved_legs.len(),
        q.guidance is Some && q.guidance->0.active_detail_index is None,
        spec_restore_direct_to(q, q.guidance) == Ok::<Option<GuidanceState>, (AppErrorKind, Seq<char>)>(
            Some(out),
        ),
    ensures
        out.active_leg_index == n.guidance->0.active_leg_index,
        detail_on_active_leg(q, out),
        out.direct_to is None,
{
    law_direct_to_keeps_the_active_leg_without_a_planned_leg(n, rows, from_position, target, q);
    assert(q.resolved_legs == n.resolved_legs);
    law_activation_starts_at_the_first_detail_of_its_leg(q, q.guidance->0, 0, out);
}

} // verus!
