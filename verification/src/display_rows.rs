//! The rows of the flight-plan view: one per waypoint component, and for
//! each airway or procedure a group row with a row for each of its listed
//! waypoints and breaks; what each row shows, and which of its actions are
//! open to the pilot.
use crate::attachment::{
    spec_insertion_check, spec_move_check, spec_remove_all_above_check, spec_removal_check,
    validate_component_move_attachments, validate_component_removal_attachments,
    validate_remove_all_above_attachments, validate_waypoint_insertion_attachments,
};
use crate::flight_plan::{FlightPlan, ResolvedLeg};
use crate::guidance::ResolvedLegSource;
use crate::nav::{nav_ref_eq, same_nav_ref, NavRef};
use crate::route::{
    is_procedure_attachment_message, spec_is_attachment_message, AppErrorKind, RouteComponent,
};
use crate::row_actions::{
    opt_text, same_but_enablement, FlightPlanRowActionId, FlightPlanRowActionUiView,
};
use vstd::prelude::*;

verus! {

/// The leg ends at component `c`: it was resolved from the component just
/// before, or it bridges to `c`.
pub open spec fn leg_reaches(leg: ResolvedLeg, c: int) -> bool {
    match leg.source {
        ResolvedLegSource::RouteComponent { component_index } => component_index + 1 == c,
        ResolvedLegSource::SyntheticBridge { to_component_index, .. } => to_component_index == c,
    }
}

/// The first leg, from leg `i` on, that ends at waypoint `w` of component
/// `c`.
pub open spec fn first_leg_reaching(legs: Seq<ResolvedLeg>, w: NavRef, c: int, i: int) -> Option<
    int,
>
    decreases legs.len() - i,
{
    if i < 0 || i >= legs.len() {
        None
    } else if same_nav_ref(legs[i].to, w) && leg_reaches(legs[i], c) {
        Some(i)
    } else {
        first_leg_reaching(legs, w, c, i + 1)
    }
}

/// The leg that the row of waypoint component `c` activates: the first leg
/// that ends at it; none for the route's first component.
pub open spec fn spec_top_row_leg(p: FlightPlan, c: int) -> Option<int> {
    if 0 < c < p.route_components.len() {
        match p.route_components@[c] {
            RouteComponent::Waypoint { waypoint } => first_leg_reaching(
                p.resolved_legs@,
                waypoint,
                c,
                0,
            ),
            _ => None,
        }
    } else {
        None
    }
}

pub(crate) proof fn lemma_first_leg_reaching_range(legs: Seq<ResolvedLeg>, w: NavRef, c: int, i: int)
    ensures
        first_leg_reaching(legs, w, c, i) matches Some(k) ==> 0 <= i <= k < legs.len(),
    decreases legs.len() - i,
{
    if 0 <= i < legs.len() {
        lemma_first_leg_reaching_range(legs, w, c, i + 1);
    }
}

/// The leg that the row of waypoint component `component_index` activates.
pub fn top_level_waypoint_row_leg_index(plan: &FlightPlan, component_index: usize) -> (r: Option<
    usize,
>)
    ensures
        r == match spec_top_row_leg(*plan, component_index as int) {
            Some(i) => Some(i as usize),
            None => None,
        },
        spec_top_row_leg(*plan, component_index as int) matches Some(i) ==> 0 <= i
            < plan.resolved_legs.len(),
{
    if component_index == 0 || component_index >= plan.route_components.len() {
        return None;
    }
    let waypoint = match &plan.route_components[component_index] {
        RouteComponent::Waypoint { waypoint } => waypoint,
        _ => return None,
    };
    let ghost legs = plan.resolved_legs@;
    proof {
        lemma_first_leg_reaching_range(legs, *waypoint, component_index as int, 0);
    }
    let mut i: usize = 0;
    while i < plan.resolved_legs.len()
        invariant
            legs == plan.resolved_legs@,
            0 < component_index < plan.route_components.len(),
            plan.route_components@[component_index as int] == (RouteComponent::Waypoint {
                waypoint: *waypoint,
            }),
            i <= legs.len(),
            first_leg_reaching(legs, *waypoint, component_index as int, 0) matches Some(k) ==> k
                < legs.len(),
            first_leg_reaching(legs, *waypoint, component_index as int, 0) == first_leg_reaching(
                legs,
                *waypoint,
                component_index as int,
                i as int,
            ),
        decreases legs.len() - i,
    {
        let leg = &plan.resolved_legs[i];
        let reaches = match leg.source {
            ResolvedLegSource::RouteComponent { component_index: s } => s < usize::MAX && s + 1
                == component_index,
            ResolvedLegSource::SyntheticBridge { to_component_index, .. } => to_component_index
                == component_index,
        };
        if reaches && nav_ref_eq(&leg.to, waypoint) {
            return Some(i);
        }
        i = i + 1;
    }
    None
}

/// The leg serves component `c`: it was resolved from `c` or bridges to it.
pub open spec fn leg_serves(leg: ResolvedLeg, c: int) -> bool {
    match leg.source {
        ResolvedLegSource::RouteComponent { component_index } => component_index == c,
        ResolvedLegSource::SyntheticBridge { to_component_index, .. } => to_component_index == c,
    }
}

/// The `occurrence`-th leg (counting from zero), from leg `i` on, that
/// serves component `c` and ends at `n`.
pub open spec fn nth_leg_to(
    legs: Seq<ResolvedLeg>,
    c: int,
    n: NavRef,
    occurrence: int,
    i: int,
) -> Option<int>
    decreases legs.len() - i,
{
    if i < 0 || i >= legs.len() {
        None
    } else if leg_serves(legs[i], c) && same_nav_ref(legs[i].to, n) {
        if occurrence == 0 {
            Some(i)
        } else {
            nth_leg_to(legs, c, n, occurrence - 1, i + 1)
        }
    } else {
        nth_leg_to(legs, c, n, occurrence, i + 1)
    }
}

/// The first leg, from leg `i` on, resolved from component `c` itself.
pub open spec fn first_leg_of(legs: Seq<ResolvedLeg>, c: int, i: int) -> Option<int>
    decreases legs.len() - i,
{
    if i < 0 || i >= legs.len() {
        None
    } else if legs[i].source == (ResolvedLegSource::RouteComponent { component_index: c as usize })
        && 0 <= c <= usize::MAX {
        Some(i)
    } else {
        first_leg_of(legs, c, i + 1)
    }
}

/// The leg that the row of the waypoint `n`, listed in a group component
/// `c`, activates: the leg of the group that ends at this occurrence of `n`;
/// for the group's first item without one, the leg just before the group's
/// first leg when it ends at `n`.
pub open spec fn spec_child_row_leg(
    p: FlightPlan,
    c: int,
    item_index: int,
    occurrence: int,
    n: NavRef,
) -> Option<int> {
    let legs = p.resolved_legs@;
    let local = nth_leg_to(legs, c, n, occurrence, 0);
    if local is Some || item_index != 0 {
        local
    } else {
        match first_leg_of(legs, c, 0) {
            Some(f) => if f >= 1 && same_nav_ref(legs[f - 1].to, n) {
                Some(f - 1)
            } else {
                None
            },
            None => None,
        }
    }
}

pub(crate) proof fn lemma_nth_leg_to_range(legs: Seq<ResolvedLeg>, c: int, n: NavRef, occurrence: int, i: int)
    ensures
        nth_leg_to(legs, c, n, occurrence, i) matches Some(k) ==> 0 <= i <= k < legs.len(),
    decreases legs.len() - i,
{
    if 0 <= i < legs.len() {
        lemma_nth_leg_to_range(legs, c, n, occurrence - 1, i + 1);
        lemma_nth_leg_to_range(legs, c, n, occurrence, i + 1);
    }
}

pub(crate) proof fn lemma_first_leg_of_range(legs: Seq<ResolvedLeg>, c: int, i: int)
    ensures
        first_leg_of(legs, c, i) matches Some(k) ==> 0 <= i <= k < legs.len(),
    decreases legs.len() - i,
{
    if 0 <= i < legs.len() {
        lemma_first_leg_of_range(legs, c, i + 1);
    }
}

/// The leg that the row of a waypoint listed in a group component
/// activates.
pub fn child_waypoint_row_leg_index(
    plan: &FlightPlan,
    component_index: usize,
    item_index: usize,
    waypoint_occurrence: usize,
    nav_ref: &NavRef,
) -> (r: Option<usize>)
    ensures
        r == match spec_child_row_leg(
            *plan,
            component_index as int,
            item_index as int,
            waypoint_occurrence as int,
            *nav_ref,
        ) {
            Some(i) => Some(i as usize),
            None => None,
        },
        spec_child_row_leg(
            *plan,
            component_index as int,
            item_index as int,
            waypoint_occurrence as int,
            *nav_ref,
        ) matches Some(i) ==> 0 <= i < plan.resolved_legs.len(),
{
    let ghost legs = plan.resolved_legs@;
    let ghost c = component_index as int;
    proof {
        lemma_nth_leg_to_range(legs, c, *nav_ref, waypoint_occurrence as int, 0);
        lemma_first_leg_of_range(legs, c, 0);
    }
    let mut remaining = waypoint_occurrence;
    let mut i: usize = 0;
    while i < plan.resolved_legs.len()
        invariant
            legs == plan.resolved_legs@,
            c == component_index as int,
            i <= legs.len(),
            nth_leg_to(legs, c, *nav_ref, waypoint_occurrence as int, 0) matches Some(k) ==> k
                < legs.len(),
            nth_leg_to(legs, c, *nav_ref, waypoint_occurrence as int, 0) == nth_leg_to(
                legs,
                c,
                *nav_ref,
                remaining as int,
                i as int,
            ),
        decreases legs.len() - i,
    {
        let leg = &plan.resolved_legs[i];
        let serves = match leg.source {
            ResolvedLegSource::RouteComponent { component_index: s } => s == component_index,
            ResolvedLegSource::SyntheticBridge { to_component_index, .. } => to_component_index
                == component_index,
        };
        if serves && nav_ref_eq(&leg.to, nav_ref) {
            if remaining == 0 {
                return Some(i);
            }
            remaining = remaining - 1;
        }
        i = i + 1;
    }
    if item_index != 0 {
        return None;
    }
    let mut k: usize = 0;
    while k < plan.resolved_legs.len()
        invariant
            legs == plan.resolved_legs@,
            c == component_index as int,
            k <= legs.len(),
            item_index == 0,
            nth_leg_to(legs, c, *nav_ref, waypoint_occurrence as int, 0) is None,
            first_leg_of(legs, c, 0) matches Some(f) ==> f < legs.len(),
            first_leg_of(legs, c, 0) == first_leg_of(legs, c, k as int),
        decreases legs.len() - k,
    {
        let from_c = match plan.resolved_legs[k].source {
            ResolvedLegSource::RouteComponent { component_index: s } => s == component_index,
            ResolvedLegSource::SyntheticBridge { .. } => false,
        };
        if from_c {
            if k >= 1 && nav_ref_eq(&plan.resolved_legs[k - 1].to, nav_ref) {
                return Some(k - 1);
            }
            return None;
        }
        k = k + 1;
    }
    None
}

/// The check that an action's route edit must pass, by the action: removal,
/// removal of everything above, a move up or down, an insertion before or
/// after; none for other actions.
pub open spec fn spec_mutation_check(
    cs: Seq<RouteComponent>,
    c: int,
    id: FlightPlanRowActionId,
) -> Option<Result<(), (AppErrorKind, Seq<char>)>> {
    match id {
        FlightPlanRowActionId::Remove => Some(spec_removal_check(cs, c)),
        FlightPlanRowActionId::RemoveProcedure => Some(spec_removal_check(cs, c)),
        FlightPlanRowActionId::RemoveAllAbove => Some(spec_remove_all_above_check(cs, c)),
        FlightPlanRowActionId::MoveUp => Some(spec_move_check(cs, c, -1)),
        FlightPlanRowActionId::MoveDown => Some(spec_move_check(cs, c, 1)),
        FlightPlanRowActionId::InsertBefore => Some(spec_insertion_check(cs, c, true)),
        FlightPlanRowActionId::InsertAfter => Some(spec_insertion_check(cs, c, false)),
        _ => None,
    }
}

/// `b` is `a` after its route edit is checked: when the check fails, an
/// enabled action, or one that fails on a procedure attachment, is disabled
/// with the check's message; otherwise the action stays as it is.
pub open spec fn availability_applied(
    cs: Seq<RouteComponent>,
    c: int,
    a: FlightPlanRowActionUiView,
    b: FlightPlanRowActionUiView,
) -> bool {
    match spec_mutation_check(cs, c, a.id) {
        Some(Err((_, message))) => if a.enabled || spec_is_attachment_message(message) {
            same_but_enablement(a, b) && !b.enabled && opt_text(b.disabled_reason) == Some(message)
        } else {
            b == a
        },
        _ => b == a,
    }
}

/// Closes the actions of component `component_index` whose route edit would
/// break the route, saying why.
pub fn apply_component_mutation_action_availability(
    plan: &FlightPlan,
    component_index: usize,
    actions: Vec<FlightPlanRowActionUiView>,
) -> (r: Vec<FlightPlanRowActionUiView>)
    requires
        plan.route_components.len() <= isize::MAX,
    ensures
        r.len() == actions.len(),
        forall|i: int|
            0 <= i < r.len() ==> availability_applied(
                plan.route_components@,
                component_index as int,
                actions@[i],
                #[trigger] r@[i],
            ),
{
    let ghost cs = plan.route_components@;
    let ghost c = component_index as int;
    let mut r: Vec<FlightPlanRowActionUiView> = Vec::new();
    let mut i: usize = 0;
    while i < actions.len()
        invariant
            cs == plan.route_components@,
            c == component_index as int,
            cs.len() <= isize::MAX,
            i <= actions.len(),
            r.len() == i,
            forall|k: int|
                0 <= k < i ==> availability_applied(cs, c, actions@[k], #[trigger] r@[k]),
        decreases actions.len() - i,
    {
        let mut a = actions[i].duplicate();
        let result = match a.id {
            FlightPlanRowActionId::Remove => Some(
                validate_component_removal_attachments(plan, component_index),
            ),
            FlightPlanRowActionId::RemoveProcedure => Some(
                validate_component_removal_attachments(plan, component_index),
            ),
            FlightPlanRowActionId::RemoveAllAbove => Some(
                validate_remove_all_above_attachments(plan, component_index),
            ),
            FlightPlanRowActionId::MoveUp => Some(
                validate_component_move_attachments(plan, component_index, -1),
            ),
            FlightPlanRowActionId::MoveDown => Some(
                validate_component_move_attachments(plan, component_index, 1),
            ),
            FlightPlanRowActionId::InsertBefore => Some(
                validate_waypoint_insertion_attachments(plan, component_index, true),
            ),
            FlightPlanRowActionId::InsertAfter => Some(
                validate_waypoint_insertion_attachments(plan, component_index, false),
            ),
            _ => None,
        };
        match result {
            Some(Err(error)) => {
                if a.enabled || is_procedure_attachment_message(error.message.as_str()) {
                    a.enabled = false;
                    a.disabled_reason = Some(error.message);
                }
            },
            _ => {},
        }
        r.push(a);
        i = i + 1;
    }
    r
}

} // verus!
