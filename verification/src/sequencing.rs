//! How guidance moves along a flight plan: activating legs and details,
//! sequencing past them, suspending at boundaries, and what the pilot's
//! guidance controls allow.
use crate::flight_plan::{
    detail_in_leg, detail_total, details_before, details_fit, lemma_detail_leg_unique, first_guidance_detail_index_for_leg,
    guidance_detail_ref_by_index, leg_detail_count, lemma_details_grow, lemma_normalized_fits,
    normalized_from, normalized_route, plan_within_limits, spec_detail_ref, FlightPlan,
    ResolvedLeg,
};
use crate::guidance::{
    GuidanceState, PlanLeg, ResolvedLegSource, SequencingMode, SuspendReason,
};
use crate::nav::{nav_ref_eq, same_nav_ref};
use crate::row_actions::{
    flight_plan_control, opt_text, FlightPlanControlId, FlightPlanControlUiView,
};
use crate::route::{AppError, AppErrorKind, ProcedureDiscontinuity, RouteComponent};
use crate::text::{decimal, owned, push_decimal, push_str};
use crate::direct_to::{
    direct_to_resume_leg_index, direct_to_target_leg_index, identity_rows, identity_rows_of,
    lemma_normalized_uids, spec_direct_to_target_row,
};
use crate::row_guidance::{first_row, uid_row_of};
use crate::rows::FlightPlanDisplayRowUiView;
use vstd::prelude::*;

verus! {

/// The leg ends where the procedure leaves the pilot on vectors, after a
/// drawn path.
pub open spec fn spec_ends_in_manual_sequence(leg: ResolvedLeg) -> bool {
    match leg.procedure_provenance {
        Some(p) => p.discontinuity_after == Some(ProcedureDiscontinuity::Vectors) && match p.display_path {
            Some(path) => path.element_count > 0,
            None => false,
        },
        None => false,
    }
}

/// Whether a leg ends where the procedure leaves the pilot on vectors, after
/// a drawn path.
pub fn resolved_leg_ends_in_manual_sequence(leg: &ResolvedLeg) -> (r: bool)
    ensures
        r == spec_ends_in_manual_sequence(*leg),
{
    match &leg.procedure_provenance {
        Some(p) => match &p.discontinuity_after {
            Some(ProcedureDiscontinuity::Vectors) => match &p.display_path {
                Some(path) => path.element_count > 0,
                None => false,
            },
            _ => false,
        },
        None => false,
    }
}

/// Detail `d` is the last drawn element of a leg that ends on vectors.
pub open spec fn spec_detail_is_manual_sequence(legs: Seq<ResolvedLeg>, d: int) -> bool {
    match spec_detail_ref(legs, d) {
        Some(r) => {
            let leg = legs[r.leg_index as int];
            &&& spec_ends_in_manual_sequence(leg)
            &&& match leg.procedure_provenance {
                Some(p) => match p.display_path {
                    Some(path) => r.element_index + 1 == path.element_count,
                    None => false,
                },
                None => false,
            }
        },
        None => false,
    }
}

/// Whether guidance detail `detail_index` is the last drawn element of a leg
/// that ends on vectors.
pub fn guidance_detail_is_manual_sequence(plan: &FlightPlan, detail_index: usize) -> (r: bool)
    requires
        details_fit(*plan),
    ensures
        r == spec_detail_is_manual_sequence(plan.resolved_legs@, detail_index as int),
{
    let detail = match guidance_detail_ref_by_index(plan, detail_index) {
        Some(d) => d,
        None => return false,
    };
    proof {
        crate::flight_plan::lemma_detail_has_leg(plan.resolved_legs@, detail_index as int);
    }
    let leg = &plan.resolved_legs[detail.leg_index];
    resolved_leg_ends_in_manual_sequence(leg) && match &leg.procedure_provenance {
        Some(p) => match &p.display_path {
            Some(path) => detail.element_index < usize::MAX && detail.element_index + 1
                == path.element_count,
            None => false,
        },
        None => false,
    }
}

/// The leg was resolved from route component `c` itself.
pub open spec fn leg_from_component(leg: ResolvedLeg, c: int) -> bool {
    match leg.source {
        ResolvedLegSource::RouteComponent { component_index } => component_index == c,
        _ => false,
    }
}

/// The last of the first `n` legs that was resolved from route component
/// `c`.
pub open spec fn last_leg_of_component(legs: Seq<ResolvedLeg>, c: int, n: int) -> Option<int>
    decreases n,
{
    if n <= 0 {
        None
    } else if leg_from_component(legs[n - 1], c) {
        Some(n - 1)
    } else {
        last_leg_of_component(legs, c, n - 1)
    }
}

/// The last leg resolved from a component is one of the first `n` legs, and
/// it was resolved from that component.
pub proof fn lemma_last_leg_of_component(legs: Seq<ResolvedLeg>, c: int, n: int)
    ensures
        last_leg_of_component(legs, c, n) matches Some(i) ==> 0 <= i < n && leg_from_component(
            legs[i],
            c,
        ),
    decreases n,
{
    if n > 0 {
        lemma_last_leg_of_component(legs, c, n - 1);
    }
}

/// The last leg that guidance flies for route component `c`.
pub fn last_guidance_leg_index_for_component(plan: &FlightPlan, component_index: usize) -> (r:
    Option<usize>)
    ensures
        r == match last_leg_of_component(
            plan.resolved_legs@,
            component_index as int,
            plan.resolved_legs.len() as int,
        ) {
            Some(i) => Some(i as usize),
            None => None,
        },
        last_leg_of_component(
            plan.resolved_legs@,
            component_index as int,
            plan.resolved_legs.len() as int,
        ) matches Some(i) ==> 0 <= i < plan.resolved_legs.len(),
{
    let ghost legs = plan.resolved_legs@;
    proof {
        lemma_last_leg_of_component(legs, component_index as int, legs.len() as int);
    }
    let mut i: usize = plan.resolved_legs.len();
    while i > 0
        invariant
            legs == plan.resolved_legs@,
            i <= legs.len(),
            last_leg_of_component(legs, component_index as int, legs.len() as int)
                == last_leg_of_component(legs, component_index as int, i as int),
        decreases i,
    {
        match plan.resolved_legs[i - 1].source {
            ResolvedLegSource::RouteComponent { component_index: c } => {
                if c == component_index {
                    return Some(i - 1);
                }
            },
            ResolvedLegSource::SyntheticBridge { .. } => {},
        }
        i = i - 1;
    }
    None
}

/// The procedure that leg `l` ends, when `l` is the last leg resolved from
/// a procedure component.
pub open spec fn procedure_ended_by_leg(
    legs: Seq<ResolvedLeg>,
    cs: Seq<RouteComponent>,
    l: int,
) -> Option<crate::route::ProcedureSegment> {
    if 0 <= l < legs.len() {
        match legs[l].source {
            ResolvedLegSource::RouteComponent { component_index } => if component_index
                < cs.len() && last_leg_of_component(legs, component_index as int, legs.len() as int)
                == Some(l) {
                match cs[component_index as int] {
                    RouteComponent::Procedure { procedure } => Some(procedure),
                    _ => None,
                }
            } else {
                None
            },
            _ => None,
        }
    } else {
        None
    }
}

/// The element of leg `l` where its terminal hold starts: the fourth element
/// from the end, for the last leg of a procedure that ends in a hold and
/// draws at least five elements.
pub open spec fn spec_terminal_hold_start_element(p: FlightPlan, l: int) -> Option<int> {
    let legs = p.resolved_legs@;
    if procedure_ended_by_leg(legs, p.route_components@, l) matches Some(procedure)
        && procedure.terminal_discontinuity == Some(ProcedureDiscontinuity::Hold) {
        match legs[l].procedure_provenance {
            Some(pv) => match pv.display_path {
                Some(path) => if path.element_count >= 5 {
                    Some(path.element_count - 4)
                } else {
                    None
                },
                None => None,
            },
            None => None,
        }
    } else {
        None
    }
}

/// The element of leg `leg_index` where its terminal hold starts.
pub fn terminal_hold_start_element_index_for_leg(plan: &FlightPlan, leg_index: usize) -> (r:
    Option<usize>)
    ensures
        r == match spec_terminal_hold_start_element(*plan, leg_index as int) {
            Some(e) => Some(e as usize),
            None => None,
        },
{
    if leg_index >= plan.resolved_legs.len() {
        return None;
    }
    let leg = &plan.resolved_legs[leg_index];
    let component_index = match leg.source {
        ResolvedLegSource::RouteComponent { component_index } => component_index,
        ResolvedLegSource::SyntheticBridge { .. } => return None,
    };
    if component_index >= plan.route_components.len() {
        return None;
    }
    let is_hold = match &plan.route_components[component_index] {
        RouteComponent::Procedure { procedure } => match &procedure.terminal_discontinuity {
            Some(ProcedureDiscontinuity::Hold) => true,
            _ => false,
        },
        _ => false,
    };
    if !is_hold {
        return None;
    }
    match last_guidance_leg_index_for_component(plan, component_index) {
        Some(last) => {
            if last != leg_index {
                return None;
            }
        },
        None => return None,
    }
    match &leg.procedure_provenance {
        Some(pv) => match &pv.display_path {
            Some(path) => {
                if path.element_count >= 5 {
                    Some(path.element_count - 4)
                } else {
                    None
                }
            },
            None => None,
        },
        None => None,
    }
}

/// The guidance detail of leg `l` where its terminal hold starts.
pub open spec fn spec_terminal_hold_start_detail(p: FlightPlan, l: int) -> Option<int> {
    match spec_terminal_hold_start_element(p, l) {
        Some(e) => Some(details_before(p.resolved_legs@, l) + e),
        None => None,
    }
}

/// The guidance detail of leg `leg_index` where its terminal hold starts.
pub fn terminal_hold_start_detail_index_for_leg(plan: &FlightPlan, leg_index: usize) -> (r: Option<
    usize,
>)
    requires
        details_fit(*plan),
    ensures
        r == match spec_terminal_hold_start_detail(*plan, leg_index as int) {
            Some(d) => Some(d as usize),
            None => None,
        },
        r matches Some(d) ==> match spec_detail_ref(plan.resolved_legs@, d as int) {
            Some(x) => x.leg_index == leg_index,
            None => false,
        },
        spec_terminal_hold_start_detail(*plan, leg_index as int) matches Some(h) ==> 0 <= h
            <= usize::MAX,
{
    let element = match terminal_hold_start_element_index_for_leg(plan, leg_index) {
        Some(e) => e,
        None => return None,
    };
    let first = match first_guidance_detail_index_for_leg(plan, leg_index) {
        Some(f) => f,
        None => return None,
    };
    proof {
        let legs = plan.resolved_legs@;
        lemma_details_grow(legs, leg_index + 1, legs.len() as int);
        assert(element < leg_detail_count(legs[leg_index as int]));
        assert(crate::flight_plan::detail_in_leg(legs, first + element, leg_index as int));
        crate::flight_plan::lemma_detail_leg_unique(legs, first + element, leg_index as int);
    }
    Some(first + element)
}

/// Guidance must stop after leg `a`: the leg ends in a discontinuity of its
/// procedure, or it is the last leg of a procedure that ends in one.
pub open spec fn spec_should_suspend_after(p: FlightPlan, a: int) -> bool {
    let legs = p.resolved_legs@;
    &&& 0 <= a < legs.len()
    &&& {
        ||| match legs[a].procedure_provenance {
            Some(pv) => pv.discontinuity_after is Some,
            None => false,
        }
        ||| match procedure_ended_by_leg(legs, p.route_components@, a) {
            Some(procedure) => procedure.terminal_discontinuity is Some,
            None => false,
        }
    }
}

/// Whether guidance must stop after leg `active_leg_index`.
pub fn should_suspend_after_active_leg(plan: &FlightPlan, active_leg_index: usize) -> (r: bool)
    ensures
        r == spec_should_suspend_after(*plan, active_leg_index as int),
{
    if active_leg_index >= plan.resolved_legs.len() {
        return false;
    }
    let active_leg = &plan.resolved_legs[active_leg_index];
    match &active_leg.procedure_provenance {
        Some(pv) => {
            if pv.discontinuity_after.is_some() {
                return true;
            }
        },
        None => {},
    }
    let component_index = match active_leg.source {
        ResolvedLegSource::RouteComponent { component_index } => component_index,
        ResolvedLegSource::SyntheticBridge { .. } => return false,
    };
    if component_index >= plan.route_components.len() {
        return false;
    }
    let ends_in_discontinuity = match &plan.route_components[component_index] {
        RouteComponent::Procedure { procedure } => procedure.terminal_discontinuity.is_some(),
        _ => false,
    };
    if !ends_in_discontinuity {
        return false;
    }
    match last_guidance_leg_index_for_component(plan, component_index) {
        Some(last) => last == active_leg_index,
        None => false,
    }
}

/// The leg after leg `l`, unless guidance must stop after `l`.
pub open spec fn spec_resume_leg_after(p: FlightPlan, l: int) -> Option<int> {
    if spec_should_suspend_after(p, l) {
        None
    } else if 0 <= l + 1 < p.resolved_legs.len() {
        Some(l + 1)
    } else {
        None
    }
}

/// The leg that guidance resumes on after leg `leg_index`.
pub fn resume_leg_index_after_leg(plan: &FlightPlan, leg_index: usize) -> (r: Option<usize>)
    ensures
        r == match spec_resume_leg_after(*plan, leg_index as int) {
            Some(i) => Some(i as usize),
            None => None,
        },
{
    if should_suspend_after_active_leg(plan, leg_index) {
        return None;
    }
    if leg_index < plan.resolved_legs.len() && leg_index + 1 < plan.resolved_legs.len() {
        Some(leg_index + 1)
    } else {
        None
    }
}

/// The first guidance detail of leg `l`, if the route has that leg.
pub open spec fn spec_first_detail(p: FlightPlan, l: int) -> Option<usize> {
    if 0 <= l < p.resolved_legs.len() {
        Some(details_before(p.resolved_legs@, l) as usize)
    } else {
        None
    }
}

/// Guidance on leg `leg` at `detail`: it follows the plan, unless the
/// detail is where a procedure leaves the pilot on vectors, where it is
/// suspended at that boundary.
pub open spec fn spec_activated(
    p: FlightPlan,
    leg: usize,
    detail: Option<usize>,
    split: Option<String>,
) -> GuidanceState {
    let manual = match detail {
        Some(d) => spec_detail_is_manual_sequence(p.resolved_legs@, d as int),
        None => false,
    };
    GuidanceState {
        active_leg_index: leg,
        active_detail_index: detail,
        display_split_leg_id: split,
        sequencing_mode: if manual {
            SequencingMode::Suspended
        } else {
            SequencingMode::FollowPlan
        },
        direct_to: None,
        suspend_reason: if manual {
            Some(SuspendReason::Boundary)
        } else {
            None
        },
    }
}

/// The guidance state for leg `active_leg_index` at `active_detail_index`.
pub fn guidance_state_for_activated_detail(
    plan: &FlightPlan,
    active_leg_index: usize,
    active_detail_index: Option<usize>,
    display_split_leg_id: Option<String>,
) -> (r: GuidanceState)
    requires
        details_fit(*plan),
    ensures
        r == spec_activated(*plan, active_leg_index, active_detail_index, display_split_leg_id),
{
    let manual_sequence = match active_detail_index {
        Some(d) => guidance_detail_is_manual_sequence(plan, d),
        None => false,
    };
    GuidanceState {
        active_leg_index,
        active_detail_index,
        display_split_leg_id,
        sequencing_mode: if manual_sequence {
            SequencingMode::Suspended
        } else {
            SequencingMode::FollowPlan
        },
        direct_to: None,
        suspend_reason: if manual_sequence {
            Some(SuspendReason::Boundary)
        } else {
            None
        },
    }
}

/// What an operation on guidance gives: the new guidance, or the kind and
/// text of the error.
pub open spec fn outcome_of(r: Result<Option<GuidanceState>, AppError>) -> Result<
    Option<GuidanceState>,
    (AppErrorKind, Seq<char>),
> {
    match r {
        Ok(g) => Ok(g),
        Err(e) => Err((e.kind, e.message@)),
    }
}

/// `r` is what an operation on `plan` gives, when `outcome` says what the
/// operation does to the guidance of a normalised plan: on success the plan
/// normalised with the new guidance; on failure the error that `outcome`
/// gives for the normalised plan.
pub open spec fn guidance_outcome(
    plan: FlightPlan,
    r: Result<FlightPlan, AppError>,
    outcome: spec_fn(FlightPlan) -> Result<Option<GuidanceState>, (AppErrorKind, Seq<char>)>,
) -> bool {
    match r {
        Ok(q) => normalized_route(plan, q) && outcome(q) == Ok::<
            Option<GuidanceState>,
            (AppErrorKind, Seq<char>),
        >(q.guidance),
        Err(e) => exists|n: FlightPlan|
            #[trigger] normalized_from(plan, n) && outcome(n) == Err::<
                Option<GuidanceState>,
                (AppErrorKind, Seq<char>),
            >((e.kind, e.message@)),
    }
}

/// An error of the given kind with the given text.
fn plan_fault(kind: AppErrorKind, message: &str) -> (e: AppError)
    ensures
        e.kind == kind,
        e.message@ == message@,
{
    AppError { kind, message: owned(message) }
}

/// An error of the given kind whose text ends in a number.
fn plan_fault_at(kind: AppErrorKind, message: &str, n: usize) -> (e: AppError)
    ensures
        e.kind == kind,
        e.message@ == message@ + decimal(n as nat),
{
    let mut text = owned(message);
    push_decimal(&mut text, n as u64);
    AppError { kind, message: text }
}

/// Applies what an operation decided to the normalised plan.
fn finish_with_guidance(plan: FlightPlan, next: Result<Option<GuidanceState>, AppError>) -> (r:
    Result<FlightPlan, AppError>)
    ensures
        match next {
            Ok(g) => r matches Ok(q) && q == (FlightPlan { guidance: g, ..plan }),
            Err(e) => r == Err::<FlightPlan, AppError>(e),
        },
{
    match next {
        Ok(g) => {
            let FlightPlan {
                id,
                name,
                route_components,
                route_component_uids,
                route_component_uid_counter,
                resolved_legs,
                guidance: _,
                departure,
                destination,
                alternate,
                cruise_altitude_ft,
                planned_departure_time_epoch_ms,
                notes,
                updated_at_epoch_ms,
                version,
            } = plan;
            Ok(
                FlightPlan {
                    id,
                    name,
                    route_components,
                    route_component_uids,
                    route_component_uid_counter,
                    resolved_legs,
                    guidance: g,
                    departure,
                    destination,
                    alternate,
                    cruise_altitude_ft,
                    planned_departure_time_epoch_ms,
                    notes,
                    updated_at_epoch_ms,
                    version,
                },
            )
        },
        Err(e) => Err(e),
    }
}

/// Activating leg `leg_index`: guidance at its first detail, split there;
/// an error past the route's last leg.
pub open spec fn spec_activate_leg(p: FlightPlan, leg_index: usize) -> Result<
    Option<GuidanceState>,
    (AppErrorKind, Seq<char>),
> {
    if leg_index < p.resolved_legs.len() {
        Ok(
            Some(
                spec_activated(
                    p,
                    leg_index,
                    spec_first_detail(p, leg_index as int),
                    Some(p.resolved_legs@[leg_index as int].id),
                ),
            ),
        )
    } else {
        Err(
            (
                AppErrorKind::UnsupportedOperation,
                "leg index out of bounds: "@ + decimal(leg_index as nat),
            ),
        )
    }
}

/// The guidance for activating leg `leg_index` of a normalised plan.
fn activated_leg_guidance(plan: &FlightPlan, leg_index: usize) -> (r: Result<
    Option<GuidanceState>,
    AppError,
>)
    requires
        details_fit(*plan),
    ensures
        outcome_of(r) == spec_activate_leg(*plan, leg_index),
{
    if leg_index >= plan.resolved_legs.len() {
        return Err(
            plan_fault_at(
                AppErrorKind::UnsupportedOperation,
                "leg index out of bounds: ",
                leg_index,
            ),
        );
    }
    let first = first_guidance_detail_index_for_leg(plan, leg_index);
    let split = plan.resolved_legs[leg_index].id.clone();
    Ok(Some(guidance_state_for_activated_detail(plan, leg_index, first, Some(split))))
}

/// Makes leg `leg_index` the active leg, from its first detail.
pub fn activate_leg(plan: FlightPlan, leg_index: usize) -> (r: Result<FlightPlan, AppError>)
    requires
        plan_within_limits(plan),
    ensures
        guidance_outcome(plan, r, |n: FlightPlan| spec_activate_leg(n, leg_index)),
{
    let ghost before = plan;
    let plan = plan.normalized();
    proof {
        lemma_normalized_fits(before, plan);
    }
    let next = activated_leg_guidance(&plan, leg_index);
    let ghost normal = plan;
    let r = finish_with_guidance(plan, next);
    proof {
        assert(normalized_from(before, normal));
    }
    r
}

/// Activating detail `detail_index` of leg `leg_index`: an error when the
/// route has no such detail or the detail belongs to another leg.
pub open spec fn spec_activate_leg_at_detail(
    p: FlightPlan,
    leg_index: usize,
    detail_index: usize,
) -> Result<Option<GuidanceState>, (AppErrorKind, Seq<char>)> {
    match spec_detail_ref(p.resolved_legs@, detail_index as int) {
        None => Err(
            (
                AppErrorKind::UnsupportedOperation,
                "guidance detail index out of bounds: "@ + decimal(detail_index as nat),
            ),
        ),
        Some(d) => if d.leg_index != leg_index {
            Err(
                (
                    AppErrorKind::UnsupportedOperation,
                    "guidance detail "@ + decimal(detail_index as nat) + " belongs to leg "@
                        + decimal(d.leg_index as nat) + ", not "@ + decimal(leg_index as nat),
                ),
            )
        } else {
            Ok(
                Some(
                    spec_activated(
                        p,
                        leg_index,
                        Some(detail_index),
                        Some(p.resolved_legs@[leg_index as int].id),
                    ),
                ),
            )
        },
    }
}

/// Makes leg `leg_index` the active leg, at its detail `detail_index`.
pub fn activate_leg_at_detail_index(plan: FlightPlan, leg_index: usize, detail_index: usize) -> (r:
    Result<FlightPlan, AppError>)
    requires
        plan_within_limits(plan),
    ensures
        guidance_outcome(
            plan,
            r,
            |n: FlightPlan| spec_activate_leg_at_detail(n, leg_index, detail_index),
        ),
{
    let ghost before = plan;
    let plan = plan.normalized();
    proof {
        lemma_normalized_fits(before, plan);
    }
    let next = match guidance_detail_ref_by_index(&plan, detail_index) {
        None => Err(
            plan_fault_at(
                AppErrorKind::UnsupportedOperation,
                "guidance detail index out of bounds: ",
                detail_index,
            ),
        ),
        Some(detail) => {
            if detail.leg_index != leg_index {
                let mut text = owned("guidance detail ");
                push_decimal(&mut text, detail_index as u64);
                push_str(&mut text, " belongs to leg ");
                push_decimal(&mut text, detail.leg_index as u64);
                push_str(&mut text, ", not ");
                push_decimal(&mut text, leg_index as u64);
                Err(AppError { kind: AppErrorKind::UnsupportedOperation, message: text })
            } else {
                proof {
                    crate::flight_plan::lemma_detail_has_leg(
                        plan.resolved_legs@,
                        detail_index as int,
                    );
                }
                let split = plan.resolved_legs[leg_index].id.clone();
                Ok(
                    Some(
                        guidance_state_for_activated_detail(
                            &plan,
                            leg_index,
                            Some(detail_index),
                            Some(split),
                        ),
                    ),
                )
            }
        },
    };
    let ghost normal = plan;
    let r = finish_with_guidance(plan, next);
    proof {
        assert(normalized_from(before, normal));
    }
    r
}

/// Activating the leg after the active one: an error without guidance or at
/// the route's last leg.
pub open spec fn spec_activate_next_leg(p: FlightPlan, g: Option<GuidanceState>) -> Result<
    Option<GuidanceState>,
    (AppErrorKind, Seq<char>),
> {
    match g {
        None => Err(
            (
                AppErrorKind::UnsupportedOperation,
                "cannot activate next leg without guidance state"@,
            ),
        ),
        Some(g) => if g.active_leg_index + 1 < p.resolved_legs.len() {
            let next = (g.active_leg_index + 1) as usize;
            Ok(
                Some(
                    spec_activated(
                        p,
                        next,
                        spec_first_detail(p, next as int),
                        Some(p.resolved_legs@[next as int].id),
                    ),
                ),
            )
        } else {
            Err((AppErrorKind::UnsupportedOperation, "no next leg is available"@))
        },
    }
}

/// The guidance for activating the next leg of a normalised plan.
fn next_leg_guidance(plan: &FlightPlan, guidance: &Option<GuidanceState>) -> (r: Result<
    Option<GuidanceState>,
    AppError,
>)
    requires
        details_fit(*plan),
    ensures
        outcome_of(r) == spec_activate_next_leg(*plan, *guidance),
{
    let g = match guidance {
        Some(g) => g,
        None => {
            return Err(
                plan_fault(
                    AppErrorKind::UnsupportedOperation,
                    "cannot activate next leg without guidance state",
                ),
            )
        },
    };
    if g.active_leg_index >= plan.resolved_legs.len() || g.active_leg_index + 1
        >= plan.resolved_legs.len() {
        return Err(plan_fault(AppErrorKind::UnsupportedOperation, "no next leg is available"));
    }
    let next = g.active_leg_index + 1;
    let first = first_guidance_detail_index_for_leg(plan, next);
    let split = plan.resolved_legs[next].id.clone();
    Ok(Some(guidance_state_for_activated_detail(plan, next, first, Some(split))))
}

/// Makes the leg after the active one the active leg.
pub fn activate_next_leg(plan: FlightPlan) -> (r: Result<FlightPlan, AppError>)
    requires
        plan_within_limits(plan),
    ensures
        guidance_outcome(plan, r, |n: FlightPlan| spec_activate_next_leg(n, plan.guidance)),
{
    let ghost before = plan;
    let plan = plan.normalized();
    proof {
        lemma_normalized_fits(before, plan);
    }
    let next = next_leg_guidance(&plan, &plan.guidance);
    let ghost normal = plan;
    let r = finish_with_guidance(plan, next);
    proof {
        assert(normalized_from(before, normal));
    }
    r
}

/// Stopping navigation: no guidance; an error without guidance.
pub open spec fn spec_stop_navigation(g: Option<GuidanceState>) -> Result<
    Option<GuidanceState>,
    (AppErrorKind, Seq<char>),
> {
    match g {
        None => Err(
            (AppErrorKind::UnsupportedOperation, "cannot stop navigation without guidance state"@),
        ),
        Some(_) => Ok(None),
    }
}

/// Ends guidance, keeping the route.
pub fn stop_navigation(plan: FlightPlan) -> (r: Result<FlightPlan, AppError>)
    requires
        uid_counter_fits_plan(plan),
    ensures
        guidance_outcome(plan, r, |n: FlightPlan| spec_stop_navigation(plan.guidance)),
{
    let ghost before = plan;
    let plan = plan.normalized();
    let next = if plan.guidance.is_none() {
        Err(
            plan_fault(
                AppErrorKind::UnsupportedOperation,
                "cannot stop navigation without guidance state",
            ),
        )
    } else {
        Ok(None)
    };
    let ghost normal = plan;
    let r = finish_with_guidance(plan, next);
    proof {
        assert(normalized_from(before, normal));
    }
    r
}

/// Normalisation can hand out the uids the plan needs.
pub open spec fn uid_counter_fits_plan(plan: FlightPlan) -> bool {
    crate::flight_plan::uid_counter_fits(plan)
}

/// The guidance with sequencing suspended for `reason`, at the same leg and
/// detail.
pub open spec fn suspended_guidance(g: GuidanceState, reason: SuspendReason) -> GuidanceState {
    GuidanceState {
        sequencing_mode: SequencingMode::Suspended,
        direct_to: None,
        suspend_reason: Some(reason),
        ..g
    }
}

/// The guidance following the plan again, at the same leg and detail.
pub open spec fn resumed_guidance(g: GuidanceState) -> GuidanceState {
    GuidanceState {
        sequencing_mode: SequencingMode::FollowPlan,
        direct_to: None,
        suspend_reason: None,
        ..g
    }
}

/// Copies the guidance with a new mode and suspend reason, and no Direct-To.
fn guidance_with_mode(
    g: &GuidanceState,
    mode: SequencingMode,
    reason: Option<SuspendReason>,
) -> (r: GuidanceState)
    ensures
        r == (GuidanceState {
            sequencing_mode: mode,
            direct_to: None,
            suspend_reason: reason,
            ..*g
        }),
{
    GuidanceState {
        active_leg_index: g.active_leg_index,
        active_detail_index: g.active_detail_index,
        display_split_leg_id: match &g.display_split_leg_id {
            Some(id) => Some(id.clone()),
            None => None,
        },
        sequencing_mode: mode,
        direct_to: None,
        suspend_reason: reason,
    }
}

/// Suspending sequencing by hand; an error without guidance.
pub open spec fn spec_suspend_sequencing(g: Option<GuidanceState>) -> Result<
    Option<GuidanceState>,
    (AppErrorKind, Seq<char>),
> {
    match g {
        None => Err(
            (
                AppErrorKind::UnsupportedOperation,
                "cannot suspend sequencing without guidance state"@,
            ),
        ),
        Some(g) => Ok(Some(suspended_guidance(g, SuspendReason::Manual))),
    }
}

/// Suspends sequencing at the active leg.
pub fn suspend_sequencing(plan: FlightPlan) -> (r: Result<FlightPlan, AppError>)
    requires
        uid_counter_fits_plan(plan),
    ensures
        guidance_outcome(plan, r, |n: FlightPlan| spec_suspend_sequencing(plan.guidance)),
{
    let ghost before = plan;
    let plan = plan.normalized();
    let next = match &plan.guidance {
        None => Err(
            plan_fault(
                AppErrorKind::UnsupportedOperation,
                "cannot suspend sequencing without guidance state",
            ),
        ),
        Some(g) => Ok(
            Some(guidance_with_mode(g, SequencingMode::Suspended, Some(SuspendReason::Manual))),
        ),
    };
    let ghost normal = plan;
    let r = finish_with_guidance(plan, next);
    proof {
        assert(normalized_from(before, normal));
    }
    r
}

/// Guidance is at or past the start of the active leg's terminal hold.
pub open spec fn spec_in_terminal_hold(p: FlightPlan, g: GuidanceState) -> bool {
    match g.active_detail_index {
        Some(d) => match spec_terminal_hold_start_detail(p, g.active_leg_index as int) {
            Some(h) => d >= h,
            None => false,
        },
        None => false,
    }
}

/// Whether guidance is at or past the start of the active leg's terminal
/// hold.
pub fn guidance_is_in_terminal_hold(plan: &FlightPlan, guidance: &GuidanceState) -> (r: bool)
    requires
        details_fit(*plan),
    ensures
        r == spec_in_terminal_hold(*plan, *guidance),
{
    match guidance.active_detail_index {
        Some(d) => match terminal_hold_start_detail_index_for_leg(plan, guidance.active_leg_index) {
            Some(h) => d >= h,
            None => false,
        },
        None => false,
    }
}

/// Resuming sequencing: in a terminal hold, guidance follows the plan
/// again; suspended at a boundary after which guidance must stop, the next
/// leg becomes active; otherwise guidance follows the plan from where it is.
/// An error without guidance, or when sequencing is not suspended.
pub open spec fn spec_unsuspend_sequencing(p: FlightPlan, g: Option<GuidanceState>) -> Result<
    Option<GuidanceState>,
    (AppErrorKind, Seq<char>),
> {
    match g {
        None => Err(
            (
                AppErrorKind::UnsupportedOperation,
                "cannot unsuspend sequencing without guidance state"@,
            ),
        ),
        Some(gs) => if gs.sequencing_mode != SequencingMode::Suspended {
            Err((AppErrorKind::UnsupportedOperation, "sequencing is not suspended"@))
        } else if spec_in_terminal_hold(p, gs) {
            Ok(Some(resumed_guidance(gs)))
        } else if gs.suspend_reason == Some(SuspendReason::Boundary) && spec_should_suspend_after(
            p,
            gs.active_leg_index as int,
        ) {
            spec_activate_next_leg(p, g)
        } else {
            Ok(Some(resumed_guidance(gs)))
        },
    }
}

/// Resumes sequencing.
pub fn unsuspend_sequencing(plan: FlightPlan) -> (r: Result<FlightPlan, AppError>)
    requires
        plan_within_limits(plan),
    ensures
        guidance_outcome(plan, r, |n: FlightPlan| spec_unsuspend_sequencing(n, plan.guidance)),
{
    let ghost before = plan;
    let plan = plan.normalized();
    proof {
        lemma_normalized_fits(before, plan);
    }
    let next = match &plan.guidance {
        None => Err(
            plan_fault(
                AppErrorKind::UnsupportedOperation,
                "cannot unsuspend sequencing without guidance state",
            ),
        ),
        Some(g) => {
            if g.sequencing_mode != SequencingMode::Suspended {
                Err(plan_fault(AppErrorKind::UnsupportedOperation, "sequencing is not suspended"))
            } else if guidance_is_in_terminal_hold(&plan, g) {
                Ok(Some(guidance_with_mode(g, SequencingMode::FollowPlan, None)))
            } else if g.suspend_reason == Some(SuspendReason::Boundary)
                && should_suspend_after_active_leg(&plan, g.active_leg_index) {
                next_leg_guidance(&plan, &plan.guidance)
            } else {
                Ok(Some(guidance_with_mode(g, SequencingMode::FollowPlan, None)))
            }
        },
    };
    let ghost normal = plan;
    let r = finish_with_guidance(plan, next);
    proof {
        assert(normalized_from(before, normal));
    }
    r
}

/// The detail guidance is at: its active detail, else the first detail of
/// its active leg, else the first detail of the route.
pub open spec fn spec_current_detail(p: FlightPlan, g: GuidanceState) -> usize {
    match g.active_detail_index {
        Some(d) => d,
        None => match spec_first_detail(p, g.active_leg_index as int) {
            Some(f) => f,
            None => 0,
        },
    }
}

/// The detail guidance is at.
fn current_detail(plan: &FlightPlan, g: &GuidanceState) -> (d: usize)
    requires
        details_fit(*plan),
    ensures
        d == spec_current_detail(*plan, *g),
{
    match g.active_detail_index {
        Some(d) => d,
        None => match first_guidance_detail_index_for_leg(plan, g.active_leg_index) {
            Some(f) => f,
            None => 0,
        },
    }
}

/// The guidance, suspended at a boundary at detail `d` of the active leg.
pub open spec fn boundary_guidance(g: GuidanceState, d: usize, reason: SuspendReason) -> GuidanceState {
    GuidanceState {
        active_detail_index: Some(d),
        sequencing_mode: SequencingMode::Suspended,
        direct_to: None,
        suspend_reason: Some(reason),
        ..g
    }
}

/// Sequencing past the active leg.
///
/// On a Direct-To, guidance resumes the plan at `resume`, the leg that the
/// Direct-To's resume row shows, when the route has it and it starts at the
/// Direct-To's target; otherwise it stops, suspended, on `target`, the leg
/// that the Direct-To's target row shows, if any. Following the plan, it
/// moves to the next leg, or suspends at a boundary after which guidance
/// must stop, or at the route's end. Suspended guidance stays as it is.
/// An error without guidance, for a Direct-To without its state, for an
/// empty route, or for a current detail that the route does not have.
pub open spec fn spec_sequence_active_leg(
    p: FlightPlan,
    g: Option<GuidanceState>,
    target: Option<usize>,
    resume: Option<usize>,
) -> Result<Option<GuidanceState>, (AppErrorKind, Seq<char>)> {
    let legs = p.resolved_legs@;
    match g {
        None => Err(
            (AppErrorKind::UnsupportedOperation, "cannot sequence a plan without guidance state"@),
        ),
        Some(gs) => match gs.sequencing_mode {
            SequencingMode::DirectTo => match gs.direct_to {
                None => Err(
                    (
                        AppErrorKind::InvalidFlightPlan,
                        "direct-to sequencing mode requires direct-to state"@,
                    ),
                ),
                Some(dt) => {
                    let resumes = match resume {
                        Some(ri) => ri < legs.len() && same_nav_ref(legs[ri as int].from, dt.target),
                        None => false,
                    };
                    if resumes {
                        let ri = resume->0;
                        Ok(
                            Some(
                                spec_activated(
                                    p,
                                    ri,
                                    spec_first_detail(p, ri as int),
                                    Some(legs[ri as int].id),
                                ),
                            ),
                        )
                    } else {
                        Ok(
                            Some(
                                GuidanceState {
                                    active_leg_index: match target {
                                        Some(t) => t,
                                        None => gs.active_leg_index,
                                    },
                                    active_detail_index: match target {
                                        Some(t) => match spec_first_detail(p, t as int) {
                                            Some(f) => Some(f),
                                            None => gs.active_detail_index,
                                        },
                                        None => gs.active_detail_index,
                                    },
                                    display_split_leg_id: match target {
                                        Some(t) => if t < legs.len() {
                                            Some(legs[t as int].id)
                                        } else {
                                            gs.display_split_leg_id
                                        },
                                        None => gs.display_split_leg_id,
                                    },
                                    sequencing_mode: SequencingMode::Suspended,
                                    direct_to: None,
                                    suspend_reason: Some(SuspendReason::DirectToComplete),
                                },
                            ),
                        )
                    }
                },
            },
            SequencingMode::FollowPlan => if legs.len() == 0 {
                Err((AppErrorKind::InvalidFlightPlan, "cannot sequence an empty resolved route"@))
            } else {
                let d = spec_current_detail(p, gs);
                let a = gs.active_leg_index as int;
                if spec_detail_ref(legs, d as int) is None {
                    Err(
                        (
                            AppErrorKind::InvalidFlightPlan,
                            "guidance detail index out of bounds: "@ + decimal(d as nat),
                        ),
                    )
                } else if spec_should_suspend_after(p, a) {
                    Ok(Some(boundary_guidance(gs, d, SuspendReason::Boundary)))
                } else if a + 1 < legs.len() {
                    let next = (a + 1) as usize;
                    Ok(
                        Some(
                            spec_activated(
                                p,
                                next,
                                spec_first_detail(p, next as int),
                                Some(legs[next as int].id),
                            ),
                        ),
                    )
                } else {
                    Ok(Some(boundary_guidance(gs, d, SuspendReason::RouteEnd)))
                }
            },
            SequencingMode::Suspended => Ok(Some(gs)),
        },
    }
}

/// Sequencing past the active leg of a normalised plan.
fn sequenced_leg_guidance(
    plan: &FlightPlan,
    guidance: &Option<GuidanceState>,
    target: Option<usize>,
    resume: Option<usize>,
) -> (r: Result<Option<GuidanceState>, AppError>)
    requires
        details_fit(*plan),
    ensures
        outcome_of(r) == spec_sequence_active_leg(*plan, *guidance, target, resume),
{
    let g = match guidance {
        Some(g) => g,
        None => {
            return Err(
                plan_fault(
                    AppErrorKind::UnsupportedOperation,
                    "cannot sequence a plan without guidance state",
                ),
            )
        },
    };
    match g.sequencing_mode {
        SequencingMode::DirectTo => {
            let dt = match &g.direct_to {
                Some(dt) => dt,
                None => {
                    return Err(
                        plan_fault(
                            AppErrorKind::InvalidFlightPlan,
                            "direct-to sequencing mode requires direct-to state",
                        ),
                    )
                },
            };
            let resumes = match resume {
                Some(ri) => ri < plan.resolved_legs.len() && nav_ref_eq(
                    &plan.resolved_legs[ri].from,
                    &dt.target,
                ),
                None => false,
            };
            if resumes {
                let ri = resume.unwrap();
                let first = first_guidance_detail_index_for_leg(plan, ri);
                let split = plan.resolved_legs[ri].id.clone();
                return Ok(Some(guidance_state_for_activated_detail(plan, ri, first, Some(split))));
            }
            let active_leg_index = match target {
                Some(t) => t,
                None => g.active_leg_index,
            };
            let active_detail_index = match target {
                Some(t) => match first_guidance_detail_index_for_leg(plan, t) {
                    Some(f) => Some(f),
                    None => g.active_detail_index,
                },
                None => g.active_detail_index,
            };
            let display_split_leg_id = match target {
                Some(t) => if t < plan.resolved_legs.len() {
                    Some(plan.resolved_legs[t].id.clone())
                } else {
                    match &g.display_split_leg_id {
                        Some(id) => Some(id.clone()),
                        None => None,
                    }
                },
                None => match &g.display_split_leg_id {
                    Some(id) => Some(id.clone()),
                    None => None,
                },
            };
            Ok(
                Some(
                    GuidanceState {
                        active_leg_index,
                        active_detail_index,
                        display_split_leg_id,
                        sequencing_mode: SequencingMode::Suspended,
                        direct_to: None,
                        suspend_reason: Some(SuspendReason::DirectToComplete),
                    },
                ),
            )
        },
        SequencingMode::FollowPlan => {
            if plan.resolved_legs.len() == 0 {
                return Err(
                    plan_fault(
                        AppErrorKind::InvalidFlightPlan,
                        "cannot sequence an empty resolved route",
                    ),
                );
            }
            let d = current_detail(plan, g);
            if guidance_detail_ref_by_index(plan, d).is_none() {
                return Err(
                    plan_fault_at(
                        AppErrorKind::InvalidFlightPlan,
                        "guidance detail index out of bounds: ",
                        d,
                    ),
                );
            }
            let a = g.active_leg_index;
            if should_suspend_after_active_leg(plan, a) {
                let mut next = guidance_with_mode(
                    g,
                    SequencingMode::Suspended,
                    Some(SuspendReason::Boundary),
                );
                next.active_detail_index = Some(d);
                Ok(Some(next))
            } else if a < plan.resolved_legs.len() - 1 {
                let next_leg = a + 1;
                let first = first_guidance_detail_index_for_leg(plan, next_leg);
                let split = plan.resolved_legs[next_leg].id.clone();
                Ok(Some(guidance_state_for_activated_detail(plan, next_leg, first, Some(split))))
            } else {
                let mut next = guidance_with_mode(
                    g,
                    SequencingMode::Suspended,
                    Some(SuspendReason::RouteEnd),
                );
                next.active_detail_index = Some(d);
                Ok(Some(next))
            }
        },
        SequencingMode::Suspended => Ok(Some(duplicate_guidance(g))),
    }
}

/// A copy of a guidance state.
pub fn duplicate_guidance(g: &GuidanceState) -> (r: GuidanceState)
    ensures
        r == *g,
{
    GuidanceState {
        active_leg_index: g.active_leg_index,
        active_detail_index: g.active_detail_index,
        display_split_leg_id: match &g.display_split_leg_id {
            Some(id) => Some(id.clone()),
            None => None,
        },
        sequencing_mode: g.sequencing_mode,
        direct_to: match &g.direct_to {
            Some(dt) => Some(dt.duplicate()),
            None => None,
        },
        suspend_reason: g.suspend_reason,
    }
}

/// Sequences guidance past the active leg. `direct_to_target_leg_index` and
/// `direct_to_resume_leg_index` are the legs of the rows that an active
/// Direct-To targets and resumes at, as the flight-plan rows show them.
#[verifier::rlimit(40)]
#[verifier::spinoff_prover]
pub fn sequence_active_leg_with_direct_to_legs(
    plan: FlightPlan,
    direct_to_target_leg_index: Option<usize>,
    direct_to_resume_leg_index: Option<usize>,
) -> (r: Result<FlightPlan, AppError>)
    requires
        plan_within_limits(plan),
    ensures
        guidance_outcome(
            plan,
            r,
            |n: FlightPlan|
                spec_sequence_active_leg(
                    n,
                    plan.guidance,
                    direct_to_target_leg_index,
                    direct_to_resume_leg_index,
                ),
        ),
{
    let ghost before = plan;
    let plan = plan.normalized();
    proof {
        lemma_normalized_fits(before, plan);
    }
    let next = sequenced_leg_guidance(
        &plan,
        &plan.guidance,
        direct_to_target_leg_index,
        direct_to_resume_leg_index,
    );
    let ghost normal = plan;
    let r = finish_with_guidance(plan, next);
    proof {
        assert(normalized_from(before, normal));
    }
    r
}

/// After the last detail of a terminal hold: the next leg, or suspended at
/// the route's end.
pub open spec fn spec_after_terminal_hold(p: FlightPlan, g: GuidanceState) -> Result<
    Option<GuidanceState>,
    (AppErrorKind, Seq<char>),
> {
    match spec_activate_next_leg(p, Some(g)) {
        Ok(next) => Ok(next),
        Err((kind, message)) => if kind == AppErrorKind::UnsupportedOperation {
            Ok(Some(suspended_guidance(g, SuspendReason::RouteEnd)))
        } else {
            Err((kind, message))
        },
    }
}

/// The detail is at or past the start of its leg's terminal hold.
pub open spec fn spec_detail_in_terminal_hold(
    p: FlightPlan,
    detail: crate::guidance::GuidanceDetailRef,
) -> bool {
    match spec_terminal_hold_start_detail(p, detail.leg_index as int) {
        Some(h) => detail.detail_index >= h,
        None => false,
    }
}

/// Sequencing past the current detail. Guidance that does not follow the
/// plan sequences past its leg. Following the plan, it moves to the next
/// detail of the active leg, suspending at the start of the leg's terminal
/// hold; past the leg's last detail it moves on as after a terminal hold
/// when the detail was in one, else as past the leg. An error without
/// guidance or for a current detail that the route does not have.
pub open spec fn spec_sequence_active_detail(
    p: FlightPlan,
    g: Option<GuidanceState>,
    target: Option<usize>,
    resume: Option<usize>,
) -> Result<Option<GuidanceState>, (AppErrorKind, Seq<char>)> {
    let legs = p.resolved_legs@;
    match g {
        None => Err(
            (AppErrorKind::UnsupportedOperation, "cannot sequence a plan without guidance state"@),
        ),
        Some(gs) => if gs.sequencing_mode != SequencingMode::FollowPlan {
            spec_sequence_active_leg(p, g, target, resume)
        } else {
            let d = spec_current_detail(p, gs);
            match spec_detail_ref(legs, d as int) {
                None => Err(
                    (
                        AppErrorKind::InvalidFlightPlan,
                        "guidance detail index out of bounds: "@ + decimal(d as nat),
                    ),
                ),
                Some(active) => {
                    let past_leg = if spec_detail_in_terminal_hold(p, active) {
                        spec_after_terminal_hold(p, gs)
                    } else {
                        spec_sequence_active_leg(p, g, target, resume)
                    };
                    match spec_detail_ref(legs, d + 1) {
                        None => past_leg,
                        Some(next) => if next.leg_index != gs.active_leg_index {
                            past_leg
                        } else if spec_terminal_hold_start_detail(p, gs.active_leg_index as int)
                            == Some(d + 1) {
                            Ok(
                                Some(
                                    boundary_guidance(gs, (d + 1) as usize, SuspendReason::Boundary),
                                ),
                            )
                        } else {
                            Ok(
                                Some(
                                    spec_activated(
                                        p,
                                        gs.active_leg_index,
                                        Some((d + 1) as usize),
                                        gs.display_split_leg_id,
                                    ),
                                ),
                            )
                        },
                    }
                },
            }
        },
    }
}

/// After a terminal hold of a normalised plan.
fn after_terminal_hold_guidance(plan: &FlightPlan, guidance: &Option<GuidanceState>) -> (r:
    Result<Option<GuidanceState>, AppError>)
    requires
        details_fit(*plan),
        guidance is Some,
    ensures
        outcome_of(r) == spec_after_terminal_hold(*plan, guidance->0),
{
    match next_leg_guidance(plan, guidance) {
        Ok(next) => Ok(next),
        Err(e) => {
            if e.kind == AppErrorKind::UnsupportedOperation {
                let g = guidance.as_ref().unwrap();
                Ok(
                    Some(
                        guidance_with_mode(
                            g,
                            SequencingMode::Suspended,
                            Some(SuspendReason::RouteEnd),
                        ),
                    ),
                )
            } else {
                Err(e)
            }
        },
    }
}

/// Sequencing past the current detail of a normalised plan.
fn sequenced_detail_guidance(
    plan: &FlightPlan,
    guidance: &Option<GuidanceState>,
    target: Option<usize>,
    resume: Option<usize>,
) -> (r: Result<Option<GuidanceState>, AppError>)
    requires
        details_fit(*plan),
    ensures
        outcome_of(r) == spec_sequence_active_detail(*plan, *guidance, target, resume),
{
    let g = match guidance {
        Some(g) => g,
        None => {
            return Err(
                plan_fault(
                    AppErrorKind::UnsupportedOperation,
                    "cannot sequence a plan without guidance state",
                ),
            )
        },
    };
    if g.sequencing_mode != SequencingMode::FollowPlan {
        return sequenced_leg_guidance(plan, guidance, target, resume);
    }
    let d = current_detail(plan, g);
    let active = match guidance_detail_ref_by_index(plan, d) {
        Some(active) => active,
        None => {
            return Err(
                plan_fault_at(
                    AppErrorKind::InvalidFlightPlan,
                    "guidance detail index out of bounds: ",
                    d,
                ),
            )
        },
    };
    let in_hold = match terminal_hold_start_detail_index_for_leg(plan, active.leg_index) {
        Some(h) => active.detail_index >= h,
        None => false,
    };
    let next = guidance_detail_ref_by_index(plan, d + 1);
    let moves_past_leg = match &next {
        None => true,
        Some(n) => n.leg_index != g.active_leg_index,
    };
    if moves_past_leg {
        if in_hold {
            return after_terminal_hold_guidance(plan, guidance);
        }
        return sequenced_leg_guidance(plan, guidance, target, resume);
    }
    let hold_start = terminal_hold_start_detail_index_for_leg(plan, g.active_leg_index);
    if hold_start == Some(d + 1) {
        let mut suspended = guidance_with_mode(
            g,
            SequencingMode::Suspended,
            Some(SuspendReason::Boundary),
        );
        suspended.active_detail_index = Some(d + 1);
        return Ok(Some(suspended));
    }
    let split = match &g.display_split_leg_id {
        Some(id) => Some(id.clone()),
        None => None,
    };
    Ok(Some(guidance_state_for_activated_detail(plan, g.active_leg_index, Some(d + 1), split)))
}

/// Sequences guidance past the current detail. `direct_to_target_leg_index`
/// and `direct_to_resume_leg_index` are as for `sequence_active_leg`.
#[verifier::rlimit(40)]
#[verifier::spinoff_prover]
pub fn sequence_active_detail_with_direct_to_legs(
    plan: FlightPlan,
    direct_to_target_leg_index: Option<usize>,
    direct_to_resume_leg_index: Option<usize>,
) -> (r: Result<FlightPlan, AppError>)
    requires
        plan_within_limits(plan),
    ensures
        guidance_outcome(
            plan,
            r,
            |n: FlightPlan|
                spec_sequence_active_detail(
                    n,
                    plan.guidance,
                    direct_to_target_leg_index,
                    direct_to_resume_leg_index,
                ),
        ),
{
    let ghost before = plan;
    let plan = plan.normalized();
    proof {
        lemma_normalized_fits(before, plan);
    }
    let next = sequenced_detail_guidance(
        &plan,
        &plan.guidance,
        direct_to_target_leg_index,
        direct_to_resume_leg_index,
    );
    let ghost normal = plan;
    let r = finish_with_guidance(plan, next);
    proof {
        assert(normalized_from(before, normal));
    }
    r
}

/// Restoring the plan from a Direct-To: guidance activates the Direct-To's
/// leg, or the route's last leg when that is past the end; with no route it
/// is suspended at the route's end. Guidance that is not on a Direct-To, and
/// no guidance, stay as they are.
pub open spec fn spec_restore_direct_to(p: FlightPlan, g: Option<GuidanceState>) -> Result<
    Option<GuidanceState>,
    (AppErrorKind, Seq<char>),
> {
    match g {
        None => Ok(None),
        Some(gs) => if gs.sequencing_mode != SequencingMode::DirectTo {
            Ok(g)
        } else if p.resolved_legs.len() > 0 {
            let active = if gs.active_leg_index < p.resolved_legs.len() - 1 {
                gs.active_leg_index
            } else {
                (p.resolved_legs.len() - 1) as usize
            };
            Ok(Some(spec_activated(p, active, spec_first_detail(p, active as int), None)))
        } else {
            Ok(
                Some(
                    GuidanceState {
                        active_leg_index: 0,
                        active_detail_index: None,
                        display_split_leg_id: None,
                        sequencing_mode: SequencingMode::Suspended,
                        direct_to: None,
                        suspend_reason: Some(SuspendReason::RouteEnd),
                    },
                ),
            )
        },
    }
}

/// Ends a Direct-To and returns guidance to the plan.
pub fn restore_direct_to(plan: FlightPlan) -> (r: Result<FlightPlan, AppError>)
    requires
        plan_within_limits(plan),
    ensures
        guidance_outcome(plan, r, |n: FlightPlan| spec_restore_direct_to(n, plan.guidance)),
        r is Ok,
{
    let ghost before = plan;
    let plan = plan.normalized();
    proof {
        lemma_normalized_fits(before, plan);
    }
    let next = match &plan.guidance {
        None => None,
        Some(g) => {
            if g.sequencing_mode != SequencingMode::DirectTo {
                Some(duplicate_guidance(g))
            } else if plan.resolved_legs.len() > 0 {
                let active = if g.active_leg_index < plan.resolved_legs.len() - 1 {
                    g.active_leg_index
                } else {
                    plan.resolved_legs.len() - 1
                };
                let first = first_guidance_detail_index_for_leg(&plan, active);
                Some(guidance_state_for_activated_detail(&plan, active, first, None))
            } else {
                Some(
                    GuidanceState {
                        active_leg_index: 0,
                        active_detail_index: None,
                        display_split_leg_id: None,
                        sequencing_mode: SequencingMode::Suspended,
                        direct_to: None,
                        suspend_reason: Some(SuspendReason::RouteEnd),
                    },
                )
            }
        },
    };
    let r = finish_with_guidance(plan, Ok(next));
    r
}

/// Guidance is at the last drawn element of a leg that ends on vectors.
pub open spec fn spec_at_manual_sequence(p: FlightPlan, g: GuidanceState) -> bool {
    match g.active_detail_index {
        Some(d) => spec_detail_is_manual_sequence(p.resolved_legs@, d as int),
        None => false,
    }
}

/// Whether guidance is at the last drawn element of a leg that ends on
/// vectors.
pub fn guidance_is_at_manual_sequence(plan: &FlightPlan, guidance: &GuidanceState) -> (r: bool)
    requires
        details_fit(*plan),
    ensures
        r == spec_at_manual_sequence(*plan, *guidance),
{
    match guidance.active_detail_index {
        Some(d) => guidance_detail_is_manual_sequence(plan, d),
        None => false,
    }
}

/// Guidance shows an active leg: a Direct-To with its state; a plan leg that
/// the route has while following the plan; and, while suspended, the active
/// leg when suspended by hand, at a boundary inside a terminal hold or on
/// vectors, or for no reason in the middle of the route.
pub open spec fn spec_projects_active_leg(p: FlightPlan, g: GuidanceState) -> bool {
    let a = g.active_leg_index as int;
    match g.sequencing_mode {
        SequencingMode::DirectTo => g.direct_to is Some,
        SequencingMode::FollowPlan => a < p.resolved_legs.len(),
        SequencingMode::Suspended => {
            let preserve = match g.suspend_reason {
                Some(SuspendReason::Manual) => true,
                Some(SuspendReason::Boundary) => spec_in_terminal_hold(p, g)
                    || spec_at_manual_sequence(p, g),
                Some(SuspendReason::RouteEnd) => false,
                Some(SuspendReason::DirectToComplete) => false,
                None => g.direct_to is None && !spec_should_suspend_after(p, a) && a + 1
                    < p.resolved_legs.len(),
            };
            preserve && a < p.resolved_legs.len()
        },
    }
}

/// Whether guidance shows an active leg.
pub fn guidance_projects_active_leg(plan: &FlightPlan, guidance: &GuidanceState) -> (r: bool)
    requires
        details_fit(*plan),
    ensures
        r == spec_projects_active_leg(*plan, *guidance),
{
    let a = guidance.active_leg_index;
    match guidance.sequencing_mode {
        SequencingMode::DirectTo => guidance.direct_to.is_some(),
        SequencingMode::FollowPlan => a < plan.resolved_legs.len(),
        SequencingMode::Suspended => {
            let preserve = match guidance.suspend_reason {
                Some(SuspendReason::Manual) => true,
                Some(SuspendReason::Boundary) => guidance_is_in_terminal_hold(plan, guidance)
                    || guidance_is_at_manual_sequence(plan, guidance),
                Some(SuspendReason::RouteEnd) => false,
                Some(SuspendReason::DirectToComplete) => false,
                None => guidance.direct_to.is_none() && !should_suspend_after_active_leg(plan, a)
                    && a < plan.resolved_legs.len() && a + 1 < plan.resolved_legs.len(),
            };
            preserve && a < plan.resolved_legs.len()
        },
    }
}

/// The active leg that guidance shows: from the Direct-To's start to its
/// target, or the active plan leg.
pub open spec fn spec_active_guidance_leg(p: FlightPlan) -> Option<PlanLeg> {
    match p.guidance {
        None => None,
        Some(g) => if !spec_projects_active_leg(p, g) {
            None
        } else {
            match g.sequencing_mode {
                SequencingMode::DirectTo => match g.direct_to {
                    Some(dt) => Some(PlanLeg { from: dt.start, to: dt.target, airway: None }),
                    None => None,
                },
                _ => if g.active_leg_index < p.resolved_legs.len() {
                    let leg = p.resolved_legs@[g.active_leg_index as int];
                    Some(PlanLeg { from: leg.from, to: leg.to, airway: None })
                } else {
                    None
                },
            }
        },
    }
}

/// The active leg that guidance shows, on the normalised plan.
pub fn active_guidance_leg(plan: FlightPlan) -> (r: Option<PlanLeg>)
    requires
        plan_within_limits(plan),
    ensures
        exists|n: FlightPlan| #[trigger]
            normalized_from(plan, n) && r == spec_active_guidance_leg(n),
{
    let ghost before = plan;
    let plan = plan.normalized();
    proof {
        lemma_normalized_fits(before, plan);
    }
    active_leg_of(&plan)
}

/// The active leg that guidance shows on the plan as it is.
pub fn active_leg_of(plan: &FlightPlan) -> (r: Option<PlanLeg>)
    requires
        details_fit(*plan),
    ensures
        r == spec_active_guidance_leg(*plan),
{
    let g = match &plan.guidance {
        Some(g) => g,
        None => return None,
    };
    if !guidance_projects_active_leg(plan, g) {
        return None;
    }
    match g.sequencing_mode {
        SequencingMode::DirectTo => match &g.direct_to {
            Some(dt) => Some(
                PlanLeg { from: dt.start.duplicate(), to: dt.target.duplicate(), airway: None },
            ),
            None => None,
        },
        _ => {
            if g.active_leg_index < plan.resolved_legs.len() {
                let leg = &plan.resolved_legs[g.active_leg_index];
                Some(PlanLeg { from: leg.from.duplicate(), to: leg.to.duplicate(), airway: None })
            } else {
                None
            }
        },
    }
}

/// The control `v` has this id, label, enablement and, when disabled, this
/// reason.
pub open spec fn control_is(
    v: FlightPlanControlUiView,
    id: FlightPlanControlId,
    label: Seq<char>,
    enabled: bool,
    reason: Seq<char>,
) -> bool {
    &&& v.id == id
    &&& v.label@ == label
    &&& v.enabled == enabled
    &&& opt_text(v.disabled_reason) == if enabled {
        None
    } else {
        Some(reason)
    }
}

/// The next leg can be activated: guidance has a leg after its active one.
pub open spec fn can_activate_next_leg(p: FlightPlan) -> bool {
    match p.guidance {
        Some(g) => g.active_leg_index + 1 < p.resolved_legs.len(),
        None => false,
    }
}

/// The active leg can be sequenced: a Direct-To with its state, or a plan
/// with legs that guidance follows.
pub open spec fn can_sequence_active_leg(p: FlightPlan) -> bool {
    match p.guidance {
        Some(g) => match g.sequencing_mode {
            SequencingMode::DirectTo => g.direct_to is Some,
            SequencingMode::FollowPlan => p.resolved_legs.len() > 0,
            SequencingMode::Suspended => false,
        },
        None => false,
    }
}

/// An off-plan Direct-To can be ended.
pub open spec fn can_restore_direct_to(p: FlightPlan) -> bool {
    crate::guidance::spec_has_direct_to_overlay(p.guidance)
}

/// Guidance is suspended.
pub open spec fn is_suspended(p: FlightPlan) -> bool {
    match p.guidance {
        Some(g) => g.sequencing_mode == SequencingMode::Suspended,
        None => false,
    }
}

/// The guidance controls of a plan, in order: next leg, sequence, stop,
/// suspend, unsuspend, restore, each enabled when its operation applies,
/// with its reason when it does not.
pub open spec fn controls_are(p: FlightPlan, r: Seq<FlightPlanControlUiView>) -> bool {
    &&& r.len() == 6
    &&& control_is(
        r[0],
        FlightPlanControlId::ActivateNextLeg,
        "Next\nLeg"@,
        can_activate_next_leg(p),
        "No next leg is available."@,
    )
    &&& control_is(
        r[1],
        FlightPlanControlId::SequenceActiveLeg,
        "SQNC"@,
        can_sequence_active_leg(p),
        if is_suspended(p) {
            "Unsuspend sequencing before sequencing the active leg."@
        } else {
            "No active leg is available to sequence."@
        },
    )
    &&& control_is(
        r[2],
        FlightPlanControlId::StopNavigation,
        "STOP\nNAV"@,
        p.guidance is Some,
        "No active guidance is available to stop."@,
    )
    &&& control_is(
        r[3],
        FlightPlanControlId::SuspendSequencing,
        "SUSP"@,
        p.guidance is Some && !is_suspended(p),
        if p.guidance is None {
            "No active guidance is available to suspend."@
        } else if is_suspended(p) {
            "Sequencing is already suspended."@
        } else {
            "Sequencing cannot be suspended now."@
        },
    )
    &&& control_is(
        r[4],
        FlightPlanControlId::UnsuspendSequencing,
        "Unsusp"@,
        is_suspended(p),
        "Sequencing is not suspended."@,
    )
    &&& control_is(
        r[5],
        FlightPlanControlId::RestoreDirectTo,
        "Restore\nFP"@,
        can_restore_direct_to(p),
        "No off-plan Direct-To is active."@,
    )
}

/// The guidance controls of a plan.
pub fn project_flight_plan_controls(plan: &FlightPlan) -> (r: Vec<FlightPlanControlUiView>)
    ensures
        controls_are(*plan, r@),
{
    let mut can_next = false;
    let mut can_restore = false;
    let mut can_sequence = false;
    let mut can_stop = false;
    let mut can_suspend = false;
    let mut can_unsuspend = false;
    match &plan.guidance {
        Some(g) => {
            can_restore = crate::guidance::guidance_has_direct_to_overlay(&plan.guidance);
            can_sequence = match g.sequencing_mode {
                SequencingMode::DirectTo => g.direct_to.is_some(),
                SequencingMode::FollowPlan => plan.resolved_legs.len() > 0,
                SequencingMode::Suspended => false,
            };
            can_next = g.active_leg_index < plan.resolved_legs.len() && g.active_leg_index + 1
                < plan.resolved_legs.len();
            can_stop = true;
            can_suspend = g.sequencing_mode != SequencingMode::Suspended;
            can_unsuspend = g.sequencing_mode == SequencingMode::Suspended;
        },
        None => {},
    }
    let suspended = match &plan.guidance {
        Some(g) => g.sequencing_mode == SequencingMode::Suspended,
        None => false,
    };
    let mut controls: Vec<FlightPlanControlUiView> = Vec::new();
    controls.push(
        flight_plan_control(
            FlightPlanControlId::ActivateNextLeg,
            "Next\nLeg",
            can_next,
            "No next leg is available.",
        ),
    );
    controls.push(
        flight_plan_control(
            FlightPlanControlId::SequenceActiveLeg,
            "SQNC",
            can_sequence,
            if suspended {
                "Unsuspend sequencing before sequencing the active leg."
            } else {
                "No active leg is available to sequence."
            },
        ),
    );
    controls.push(
        flight_plan_control(
            FlightPlanControlId::StopNavigation,
            "STOP\nNAV",
            can_stop,
            "No active guidance is available to stop.",
        ),
    );
    controls.push(
        flight_plan_control(
            FlightPlanControlId::SuspendSequencing,
            "SUSP",
            can_suspend,
            if plan.guidance.is_none() {
                "No active guidance is available to suspend."
            } else if suspended {
                "Sequencing is already suspended."
            } else {
                "Sequencing cannot be suspended now."
            },
        ),
    );
    controls.push(
        flight_plan_control(
            FlightPlanControlId::UnsuspendSequencing,
            "Unsusp",
            can_unsuspend,
            "Sequencing is not suspended.",
        ),
    );
    controls.push(
        flight_plan_control(
            FlightPlanControlId::RestoreDirectTo,
            "Restore\nFP",
            can_restore,
            "No off-plan Direct-To is active.",
        ),
    );
    controls
}

/// The first guidance detail of a leg is that leg's first drawn element.
pub proof fn law_first_detail_starts_its_leg(legs: Seq<ResolvedLeg>, i: int)
    requires
        0 <= i < legs.len(),
        legs.len() <= usize::MAX,
    ensures
        spec_detail_ref(legs, details_before(legs, i) as int) == Some(
            crate::guidance::GuidanceDetailRef {
                detail_index: details_before(legs, i) as usize,
                leg_index: i as usize,
                leg_id: legs[i].id,
                element_index: 0,
            },
        ),
{
    lemma_details_grow(legs, i + 1, legs.len() as int);
    assert(crate::flight_plan::detail_in_leg(legs, details_before(legs, i) as int, i));
    crate::flight_plan::lemma_detail_leg_unique(legs, details_before(legs, i) as int, i);
}

/// The "next leg" control is enabled exactly when activating the next leg
/// succeeds.
pub proof fn law_next_leg_control_matches_operation(
    p: FlightPlan,
    controls: Seq<FlightPlanControlUiView>,
)
    requires
        controls_are(p, controls),
    ensures
        controls[0].enabled <==> spec_activate_next_leg(p, p.guidance) is Ok,
{
}

/// The "stop navigation" control is enabled exactly when stopping
/// navigation succeeds.
pub proof fn law_stop_control_matches_operation(
    p: FlightPlan,
    controls: Seq<FlightPlanControlUiView>,
)
    requires
        controls_are(p, controls),
    ensures
        controls[2].enabled <==> spec_stop_navigation(p.guidance) is Ok,
{
}

/// When the "suspend" control is enabled, suspending succeeds; when
/// unsuspending succeeds, the "unsuspend" control is enabled.
pub proof fn law_suspend_controls_match_operations(
    p: FlightPlan,
    controls: Seq<FlightPlanControlUiView>,
)
    requires
        controls_are(p, controls),
    ensures
        controls[3].enabled ==> spec_suspend_sequencing(p.guidance) is Ok,
        spec_unsuspend_sequencing(p, p.guidance) is Ok ==> controls[4].enabled,
{
}

/// Every disabled guidance control says why.
pub proof fn law_disabled_controls_have_reasons(
    p: FlightPlan,
    controls: Seq<FlightPlanControlUiView>,
)
    requires
        controls_are(p, controls),
    ensures
        forall|i: int|
            0 <= i < controls.len() ==> (!(#[trigger] controls[i]).enabled <==> controls[i].disabled_reason
                is Some),
{
}

/// Suspending by hand and then resuming leaves guidance following the plan
/// at the same leg, detail and split.
pub proof fn law_unsuspend_undoes_suspend(p: FlightPlan, g: GuidanceState)
    ensures
        spec_suspend_sequencing(Some(g)) == Ok::<
            Option<GuidanceState>,
            (AppErrorKind, Seq<char>),
        >(Some(suspended_guidance(g, SuspendReason::Manual))),
        spec_unsuspend_sequencing(p, Some(suspended_guidance(g, SuspendReason::Manual))) == Ok::<
            Option<GuidanceState>,
            (AppErrorKind, Seq<char>),
        >(Some(resumed_guidance(g))),
{
    let s = suspended_guidance(g, SuspendReason::Manual);
    assert(resumed_guidance(s) == resumed_guidance(g));
}

/// After a leg of the route is activated, guidance shows that leg.
pub proof fn law_activated_leg_is_shown(p: FlightPlan, i: usize)
    requires
        details_fit(p),
        i < p.resolved_legs.len(),
    ensures
        spec_activate_leg(p, i) matches Ok(Some(g)) && spec_active_guidance_leg(
            FlightPlan { guidance: Some(g), ..p },
        ) == Some(
            PlanLeg {
                from: p.resolved_legs@[i as int].from,
                to: p.resolved_legs@[i as int].to,
                airway: None,
            },
        ),
{
}

/// Following the plan, sequencing never moves guidance back along the
/// route: it moves to the next leg or suspends where it is.
pub proof fn law_sequencing_moves_forward(
    p: FlightPlan,
    g: GuidanceState,
    target: Option<usize>,
    resume: Option<usize>,
)
    requires
        g.sequencing_mode == SequencingMode::FollowPlan,
    ensures
        spec_sequence_active_leg(p, Some(g), target, resume) matches Ok(Some(next)) ==> (
        next.active_leg_index == g.active_leg_index + 1 && next.sequencing_mode
            != SequencingMode::DirectTo) || (next.active_leg_index == g.active_leg_index
            && next.sequencing_mode == SequencingMode::Suspended),
{
}

/// Sequencing ends every Direct-To: afterwards guidance has no Direct-To
/// state.
pub proof fn law_sequencing_ends_direct_to(
    p: FlightPlan,
    g: GuidanceState,
    target: Option<usize>,
    resume: Option<usize>,
)
    requires
        g.sequencing_mode == SequencingMode::DirectTo,
    ensures
        spec_sequence_active_leg(p, Some(g), target, resume) matches Ok(Some(next)) ==> next.direct_to
            is None && next.sequencing_mode != SequencingMode::DirectTo,
{
}

/// Sequencing suspended guidance leaves it as it is.
pub proof fn law_sequencing_keeps_suspended_guidance(
    p: FlightPlan,
    g: GuidanceState,
    target: Option<usize>,
    resume: Option<usize>,
)
    requires
        g.sequencing_mode == SequencingMode::Suspended,
    ensures
        spec_sequence_active_leg(p, Some(g), target, resume) == Ok::<
            Option<GuidanceState>,
            (AppErrorKind, Seq<char>),
        >(Some(g)),
        spec_sequence_active_detail(p, Some(g), target, resume) == Ok::<
            Option<GuidanceState>,
            (AppErrorKind, Seq<char>),
        >(Some(g)),
{
}

} // verus!

verus! {

/// The legs of the rows that the Direct-To of `g` targets and resumes at,
/// as `rows` show them; none without a Direct-To.
pub open spec fn direct_to_legs_of(
    rows: Seq<FlightPlanDisplayRowUiView>,
    g: Option<GuidanceState>,
) -> (Option<usize>, Option<usize>) {
    match g {
        Some(gs) => match gs.direct_to {
            Some(d) => (
                match spec_direct_to_target_row(rows, d) {
                    Some(k) => rows[k].leg_index,
                    None => None,
                },
                match d.resume_row_id {
                    Some(id) => match first_row(rows, uid_row_of(id.0@), 0) {
                        Some(k) => rows[k].leg_index,
                        None => None,
                    },
                    None => None,
                },
            ),
            None => (None, None),
        },
        None => (None, None),
    }
}

/// The Direct-To legs of the normalised plan, read off its identity rows.
fn direct_to_legs(Ghost(p): Ghost<FlightPlan>, plan: &FlightPlan) -> (r: (
    Option<usize>,
    Option<usize>,
    Ghost<Seq<FlightPlanDisplayRowUiView>>,
))
    requires
        plan_within_limits(p),
        normalized_from(p, *plan),
        plan.route_components.len() <= isize::MAX,
    ensures
        identity_rows_of(*plan, r.2@),
        (r.0, r.1) == direct_to_legs_of(r.2@, plan.guidance),
{
    proof {
        lemma_normalized_uids(p, *plan);
    }
    let rows = identity_rows(plan);
    let legs = match &plan.guidance {
        Some(g) => match &g.direct_to {
            Some(d) => (
                direct_to_target_leg_index(rows.as_slice(), d),
                direct_to_resume_leg_index(rows.as_slice(), d),
            ),
            None => (None, None),
        },
        None => (None, None),
    };
    (legs.0, legs.1, Ghost(rows@))
}

/// Sequences guidance past the active leg, an active Direct-To handing
/// over at the legs of the rows it targets and resumes at, as the plan's
/// own rows show them.
#[verifier::rlimit(40)]
#[verifier::spinoff_prover]
pub fn sequence_active_leg(plan: FlightPlan) -> (r: Result<FlightPlan, AppError>)
    requires
        plan_within_limits(plan),
        plan.route_components.len() <= isize::MAX,
    ensures
        exists|n: FlightPlan, rows: Seq<FlightPlanDisplayRowUiView>|
            #[trigger] normalized_from(plan, n) && #[trigger] identity_rows_of(n, rows)
                && guidance_outcome(
                plan,
                r,
                |m: FlightPlan|
                    spec_sequence_active_leg(
                        m,
                        plan.guidance,
                        direct_to_legs_of(rows, plan.guidance).0,
                        direct_to_legs_of(rows, plan.guidance).1,
                    ),
            ),
{
    let ghost p = plan;
    let plan = plan.normalized();
    proof {
        lemma_normalized_fits(p, plan);
    }
    let (target, resume, rows) = direct_to_legs(Ghost(p), &plan);
    let next = sequenced_leg_guidance(&plan, &plan.guidance, target, resume);
    let ghost n = plan;
    let r = finish_with_guidance(plan, next);
    proof {
        assert(normalized_from(p, n));
        assert(identity_rows_of(n, rows@));
    }
    r
}

/// Sequences guidance past the active detail (past the active leg outside
/// plain plan following), an active Direct-To handing over at the legs of
/// the rows it targets and resumes at, as the plan's own rows show them.
#[verifier::rlimit(40)]
#[verifier::spinoff_prover]
pub fn sequence_active_detail(plan: FlightPlan) -> (r: Result<FlightPlan, AppError>)
    requires
        plan_within_limits(plan),
        plan.route_components.len() <= isize::MAX,
    ensures
        exists|n: FlightPlan, rows: Seq<FlightPlanDisplayRowUiView>|
            #[trigger] normalized_from(plan, n) && #[trigger] identity_rows_of(n, rows)
                && guidance_outcome(
                plan,
                r,
                |m: FlightPlan|
                    spec_sequence_active_detail(
                        m,
                        plan.guidance,
                        direct_to_legs_of(rows, plan.guidance).0,
                        direct_to_legs_of(rows, plan.guidance).1,
                    ),
            ),
{
    let ghost p = plan;
    let plan = plan.normalized();
    proof {
        lemma_normalized_fits(p, plan);
    }
    let (target, resume, rows) = direct_to_legs(Ghost(p), &plan);
    let next = sequenced_detail_guidance(&plan, &plan.guidance, target, resume);
    let ghost n = plan;
    let r = finish_with_guidance(plan, next);
    proof {
        assert(normalized_from(p, n));
        assert(identity_rows_of(n, rows@));
    }
    r
}

} // verus!

verus! {

/// Sequencing guidance that follows the plan past its active leg either
/// keeps that leg (suspended at a boundary or at the route's end) or moves
/// to the very next leg; when it moves, its active detail is the first
/// detail of that next leg, so the detail and the leg agree.
pub proof fn law_sequencing_moves_to_the_first_detail_of_the_next_leg(
    p: FlightPlan,
    g: GuidanceState,
    target: Option<usize>,
    resume: Option<usize>,
    out: GuidanceState,
)
    requires
        details_fit(p),
        g.sequencing_mode == SequencingMode::FollowPlan,
        spec_sequence_active_leg(p, Some(g), target, resume) == Ok::<
            Option<GuidanceState>,
            (AppErrorKind, Seq<char>),
        >(Some(out)),
    ensures
        out.active_leg_index == g.active_leg_index || out.active_leg_index == g.active_leg_index + 1,
        out.active_leg_index != g.active_leg_index ==> {
            &&& out.active_leg_index < p.resolved_legs.len()
            &&& out.active_detail_index == Some(
                details_before(p.resolved_legs@, out.active_leg_index as int) as usize,
            )
            &&& spec_detail_ref(p.resolved_legs@, out.active_detail_index->0 as int) matches Some(r)
            &&& r.leg_index == out.active_leg_index
            &&& r.element_index == 0
            &&& out.display_split_leg_id == Some(p.resolved_legs@[out.active_leg_index as int].id)
            &&& out.direct_to is None
        },
{
    let legs = p.resolved_legs@;
    let a = g.active_leg_index as int;
    if out.active_leg_index != g.active_leg_index {
        let next = a + 1;
        assert(0 <= next < legs.len());
        lemma_details_grow(legs, next + 1, legs.len() as int);
        let f = details_before(legs, next);
        assert(details_before(legs, next + 1) == f + leg_detail_count(legs[next]));
        assert(leg_detail_count(legs[next]) >= 1);
        assert(f < detail_total(legs));
        assert(detail_in_leg(legs, f as int, next));
        lemma_detail_leg_unique(legs, f as int, next);
    }
}

} // verus!

verus! {

/// Guidance's active detail is a detail of its active leg.
pub open spec fn detail_on_active_leg(p: FlightPlan, g: GuidanceState) -> bool {
    g.active_detail_index matches Some(d) && spec_detail_ref(p.resolved_legs@, d as int) matches Some(r)
        && r.leg_index == g.active_leg_index
}

pub(crate) proof fn lemma_first_detail_names_its_leg(p: FlightPlan, l: int)
    requires
        details_fit(p),
        0 <= l < p.resolved_legs.len(),
    ensures
        spec_detail_ref(p.resolved_legs@, details_before(p.resolved_legs@, l) as int) matches Some(r)
            && r.leg_index == l && r.element_index == 0,
        details_before(p.resolved_legs@, l) as usize as int == details_before(p.resolved_legs@, l),
{
    let legs = p.resolved_legs@;
    lemma_details_grow(legs, l + 1, legs.len() as int);
    let f = details_before(legs, l);
    assert(details_before(legs, l + 1) == f + leg_detail_count(legs[l]));
    assert(detail_in_leg(legs, f as int, l));
    lemma_detail_leg_unique(legs, f as int, l);
}

proof fn lemma_sequenced_leg_keeps_detail_on_leg(
    p: FlightPlan,
    g: GuidanceState,
    target: Option<usize>,
    resume: Option<usize>,
    out: GuidanceState,
)
    requires
        details_fit(p),
        g.sequencing_mode == SequencingMode::FollowPlan,
        detail_on_active_leg(p, g),
        spec_sequence_active_leg(p, Some(g), target, resume) == Ok::<
            Option<GuidanceState>,
            (AppErrorKind, Seq<char>),
        >(Some(out)),
    ensures
        detail_on_active_leg(p, out),
        out.active_leg_index == g.active_leg_index || out.active_leg_index == g.active_leg_index + 1,
{
    law_sequencing_moves_to_the_first_detail_of_the_next_leg(p, g, target, resume, out);
    if out.active_leg_index != g.active_leg_index {
        lemma_first_detail_names_its_leg(p, out.active_leg_index as int);
    }
}

/// Sequencing guidance that follows the plan, by leg or by detail, keeps its
/// active detail on its active leg: from guidance whose detail is a detail
/// of its leg, it stays on that leg or moves to the next one, and its new
/// detail is a detail of the leg it is then on.
pub proof fn law_sequencing_keeps_the_detail_on_the_active_leg(
    p: FlightPlan,
    g: GuidanceState,
    target: Option<usize>,
    resume: Option<usize>,
    by_detail: bool,
    out: GuidanceState,
)
    requires
        details_fit(p),
        g.sequencing_mode == SequencingMode::FollowPlan,
        detail_on_active_leg(p, g),
        (if by_detail {
            spec_sequence_active_detail(p, Some(g), target, resume)
        } else {
            spec_sequence_active_leg(p, Some(g), target, resume)
        }) == Ok::<Option<GuidanceState>, (AppErrorKind, Seq<char>)>(Some(out)),
    ensures
        detail_on_active_leg(p, out),
        out.active_leg_index == g.active_leg_index || out.active_leg_index == g.active_leg_index + 1,
{
    let legs = p.resolved_legs@;
    if !by_detail {
        lemma_sequenced_leg_keeps_detail_on_leg(p, g, target, resume, out);
    } else {
        let d = spec_current_detail(p, g);
        let active = spec_detail_ref(legs, d as int)->0;
        let past_leg = if spec_detail_in_terminal_hold(p, active) {
            spec_after_terminal_hold(p, g)
        } else {
            spec_sequence_active_leg(p, Some(g), target, resume)
        };
        if spec_sequence_active_detail(p, Some(g), target, resume) == past_leg {
            if spec_detail_in_terminal_hold(p, active) {
                let a = g.active_leg_index;
                if a + 1 < legs.len() {
                    lemma_first_detail_names_its_leg(p, a + 1);
                }
            } else {
                lemma_sequenced_leg_keeps_detail_on_leg(p, g, target, resume, out);
            }
        }
    }
}

} // verus!

verus! {

/// Activating a leg, the next leg, or restoring the plan from a Direct-To
/// puts guidance on a leg of the route at that leg's first detail: the leg
/// asked for; the one after the active leg; the Direct-To's leg, or the last
/// leg when that is past the route's end.
pub proof fn law_activation_starts_at_the_first_detail_of_its_leg(
    p: FlightPlan,
    g: GuidanceState,
    leg_index: usize,
    out: GuidanceState,
)
    requires
        details_fit(p),
    ensures
        spec_activate_leg(p, leg_index) == Ok::<Option<GuidanceState>, (AppErrorKind, Seq<char>)>(
            Some(out),
        ) ==> out.active_leg_index == leg_index && leg_index < p.resolved_legs.len()
            && detail_on_active_leg(p, out) && out.active_detail_index == Some(
            details_before(p.resolved_legs@, leg_index as int) as usize,
        ),
        spec_activate_next_leg(p, Some(g)) == Ok::<Option<GuidanceState>, (AppErrorKind, Seq<char>)>(
            Some(out),
        ) ==> out.active_leg_index == g.active_leg_index + 1 && detail_on_active_leg(p, out)
            && out.active_detail_index == Some(
            details_before(p.resolved_legs@, out.active_leg_index as int) as usize,
        ),
        g.sequencing_mode == SequencingMode::DirectTo && p.resolved_legs.len() > 0
            && spec_restore_direct_to(p, Some(g)) == Ok::<
            Option<GuidanceState>,
            (AppErrorKind, Seq<char>),
        >(Some(out)) ==> out.active_leg_index == (if g.active_leg_index < p.resolved_legs.len() {
            g.active_leg_index as int
        } else {
            p.resolved_legs.len() - 1
        }) && detail_on_active_leg(p, out) && out.active_detail_index == Some(
            details_before(p.resolved_legs@, out.active_leg_index as int) as usize,
        ) && out.direct_to is None,
{
    if leg_index < p.resolved_legs.len() {
        lemma_first_detail_names_its_leg(p, leg_index as int);
    }
    if g.active_leg_index + 1 < p.resolved_legs.len() {
        lemma_first_detail_names_its_leg(p, g.active_leg_index + 1);
    }
    if p.resolved_legs.len() > 0 {
        let n = p.resolved_legs.len();
        let active = if g.active_leg_index < n - 1 {
            g.active_leg_index as int
        } else {
            n - 1
        };
        lemma_first_detail_names_its_leg(p, active);
    }
}

} // verus!
