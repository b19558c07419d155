//! Where departure, arrival and approach procedures attach to the airports
//! of a flight plan: which component a procedure of each kind occupies, and
//! where one is loaded.
use crate::flight_plan::FlightPlan;
use crate::nav::{AirportId, LatLon, NavRef};
use crate::route::{
    attachment_message, attachment_violation, departure_attached, procedure_attachment_error,
    procedure_indices, spec_terminal_matches_destination, validate_procedure_attachments,
    AirwaySegment, AppError, AppErrorKind, ProcedureKind, ProcedureSegment, RouteComponent,
    APPROACH_ATTACHMENT_MESSAGE, ARRIVAL_ATTACHMENT_MESSAGE, DEPARTURE_ATTACHMENT_MESSAGE,
};
use crate::text::{decimal, owned, push_decimal, push_str, str_eq, trim, trimmed};
use vstd::prelude::*;

verus! {

/// The airport id of an airport waypoint component.
pub open spec fn airport_of(c: RouteComponent) -> Option<Seq<char>> {
    match c {
        RouteComponent::Waypoint { waypoint: NavRef::Airport(id) } => Some(id@),
        _ => None,
    }
}

/// Component `i` of `cs` is a procedure of this kind, at an airport whose
/// trimmed id is `airport`.
pub open spec fn procedure_of_at(
    cs: Seq<RouteComponent>,
    i: int,
    kind: ProcedureKind,
    airport: Seq<char>,
) -> bool {
    0 <= i < cs.len() && match cs[i] {
        RouteComponent::Procedure { procedure } => procedure.kind == kind && trimmed(
            procedure.airport_id.0@,
        ) == trimmed(airport),
        _ => false,
    }
}

/// Component `i` of `cs` is an approach.
pub open spec fn is_approach_at(cs: Seq<RouteComponent>, i: int) -> bool {
    0 <= i < cs.len() && match cs[i] {
        RouteComponent::Procedure { procedure } => procedure.kind == ProcedureKind::Approach,
        _ => false,
    }
}

/// Where a procedure of this kind attached to the airport at `a` stands: a
/// departure just after the route's first airport; an approach just before
/// the airport; an arrival just before the airport, or before its approach.
pub open spec fn attachment_slot(cs: Seq<RouteComponent>, a: int, kind: ProcedureKind) -> Option<
    int,
> {
    match kind {
        ProcedureKind::Sid => if a == 0 {
            Some(1)
        } else {
            None
        },
        ProcedureKind::Approach => if a >= 1 {
            Some(a - 1)
        } else {
            None
        },
        ProcedureKind::Star => if a >= 1 {
            if is_approach_at(cs, a - 1) {
                if a >= 2 {
                    Some(a - 2)
                } else {
                    None
                }
            } else {
                Some(a - 1)
            }
        } else {
            None
        },
    }
}

/// The component of the procedure of this kind attached to the airport at
/// `a`: the one in its slot, when it is of that kind and at that airport.
pub open spec fn spec_attached_procedure(cs: Seq<RouteComponent>, a: int, kind: ProcedureKind) -> Option<
    int,
> {
    if 0 <= a < cs.len() {
        match airport_of(cs[a]) {
            Some(airport) => match attachment_slot(cs, a, kind) {
                Some(i) => if procedure_of_at(cs, i, kind, airport) {
                    Some(i)
                } else {
                    None
                },
                None => None,
            },
            None => None,
        }
    } else {
        None
    }
}

/// The component of the procedure of this kind attached to the airport at
/// `airport_component_index`.
pub fn attached_procedure_component_index(
    plan: &FlightPlan,
    airport_component_index: usize,
    kind: ProcedureKind,
) -> (r: Option<usize>)
    ensures
        r == match spec_attached_procedure(
            plan.route_components@,
            airport_component_index as int,
            kind,
        ) {
            Some(i) => Some(i as usize),
            None => None,
        },
{
    let cs = &plan.route_components;
    let a = airport_component_index;
    if a >= cs.len() {
        return None;
    }
    let airport_id = match &cs[a] {
        RouteComponent::Waypoint { waypoint: NavRef::Airport(id) } => id,
        _ => return None,
    };
    let candidate = match kind {
        ProcedureKind::Sid => {
            if a == 0 {
                1
            } else {
                return None;
            }
        },
        ProcedureKind::Approach => {
            if a >= 1 {
                a - 1
            } else {
                return None;
            }
        },
        ProcedureKind::Star => {
            if a == 0 {
                return None;
            }
            let previous = a - 1;
            let previous_is_approach = match &cs[previous] {
                RouteComponent::Procedure { procedure } => procedure.kind
                    == ProcedureKind::Approach,
                _ => false,
            };
            if previous_is_approach {
                if previous >= 1 {
                    previous - 1
                } else {
                    return None;
                }
            } else {
                previous
            }
        },
    };
    if candidate >= cs.len() {
        return None;
    }
    let attached = match &cs[candidate] {
        RouteComponent::Procedure { procedure } => procedure.kind == kind && str_eq(
            trim(procedure.airport_id.0.as_str()),
            trim(airport_id.as_str()),
        ),
        _ => false,
    };
    if attached {
        Some(candidate)
    } else {
        None
    }
}

/// Where a procedure of this kind is loaded for the airport at `a`: over the
/// attached one, if there is one; otherwise a departure goes after the
/// route's first airport, an approach before the route's last airport, and
/// an arrival before the route's last airport or its approach. An error for
/// a target that is not an airport waypoint, and the attachment error of the
/// kind for an airport where such a procedure cannot attach.
pub open spec fn spec_procedure_load_index(
    cs: Seq<RouteComponent>,
    a: int,
    kind: ProcedureKind,
) -> Result<int, (AppErrorKind, Seq<char>)> {
    if !(0 <= a < cs.len() && airport_of(cs[a]) is Some) {
        Err(
            (
                AppErrorKind::UnsupportedOperation,
                "procedure load target must be an airport waypoint"@,
            ),
        )
    } else if spec_attached_procedure(cs, a, kind) is Some {
        Ok(spec_attached_procedure(cs, a, kind)->0)
    } else {
        match kind {
            ProcedureKind::Sid => if a == 0 {
                Ok(1)
            } else {
                Err((AppErrorKind::InvalidFlightPlan, DEPARTURE_ATTACHMENT_MESSAGE@))
            },
            ProcedureKind::Approach => if a + 1 == cs.len() {
                Ok(a)
            } else {
                Err((AppErrorKind::InvalidFlightPlan, APPROACH_ATTACHMENT_MESSAGE@))
            },
            ProcedureKind::Star => if a + 1 != cs.len() {
                Err((AppErrorKind::InvalidFlightPlan, ARRIVAL_ATTACHMENT_MESSAGE@))
            } else if spec_attached_procedure(cs, a, ProcedureKind::Approach) is Some {
                Ok(a - 1)
            } else {
                Ok(a)
            },
        }
    }
}

/// Where a procedure of this kind is loaded for the airport at
/// `airport_component_index`.
pub fn procedure_component_index_for_load(
    plan: &FlightPlan,
    airport_component_index: usize,
    kind: ProcedureKind,
) -> (r: Result<usize, AppError>)
    ensures
        match r {
            Ok(i) => spec_procedure_load_index(
                plan.route_components@,
                airport_component_index as int,
                kind,
            ) == Ok::<int, (AppErrorKind, Seq<char>)>(i as int),
            Err(e) => spec_procedure_load_index(
                plan.route_components@,
                airport_component_index as int,
                kind,
            ) == Err::<int, (AppErrorKind, Seq<char>)>((e.kind, e.message@)),
        },
{
    let cs = &plan.route_components;
    let a = airport_component_index;
    let is_airport = a < cs.len() && match &cs[a] {
        RouteComponent::Waypoint { waypoint: NavRef::Airport(_) } => true,
        _ => false,
    };
    if !is_airport {
        return Err(
            AppError {
                kind: AppErrorKind::UnsupportedOperation,
                message: owned("procedure load target must be an airport waypoint"),
            },
        );
    }
    match attached_procedure_component_index(plan, a, kind) {
        Some(index) => return Ok(index),
        None => {},
    }
    match kind {
        ProcedureKind::Sid => {
            if a == 0 {
                Ok(1)
            } else {
                Err(procedure_attachment_error(DEPARTURE_ATTACHMENT_MESSAGE))
            }
        },
        ProcedureKind::Approach => {
            if a + 1 == cs.len() {
                Ok(a)
            } else {
                Err(procedure_attachment_error(APPROACH_ATTACHMENT_MESSAGE))
            }
        },
        ProcedureKind::Star => {
            if a + 1 != cs.len() {
                return Err(procedure_attachment_error(ARRIVAL_ATTACHMENT_MESSAGE));
            }
            if attached_procedure_component_index(plan, a, ProcedureKind::Approach).is_some() {
                Ok(a - 1)
            } else {
                Ok(a)
            }
        },
    }
}

/// A procedure can go before component `c`: it is the first component, or
/// follows a waypoint or an airway.
pub open spec fn spec_can_insert_procedure_before(cs: Seq<RouteComponent>, c: int) -> bool {
    c == 0 || (1 <= c <= cs.len() && (cs[c - 1] is Waypoint || cs[c - 1] is Airway))
}

/// Whether a procedure can go before component `component_index`.
pub fn can_insert_procedure_before_component(plan: &FlightPlan, component_index: usize) -> (r:
    bool)
    ensures
        r == spec_can_insert_procedure_before(plan.route_components@, component_index as int),
{
    if component_index == 0 {
        return true;
    }
    if component_index - 1 >= plan.route_components.len() {
        return false;
    }
    match &plan.route_components[component_index - 1] {
        RouteComponent::Waypoint { .. } => true,
        RouteComponent::Airway { .. } => true,
        RouteComponent::Procedure { .. } => false,
    }
}

/// The approach just before the airport at `c` that a new approach would
/// replace: one at the same airport.
pub open spec fn spec_replaceable_procedure_before(cs: Seq<RouteComponent>, c: int) -> Option<int> {
    if 1 <= c < cs.len() {
        match (cs[c], cs[c - 1]) {
            (
                RouteComponent::Waypoint { waypoint: NavRef::Airport(airport_id) },
                RouteComponent::Procedure { procedure },
            ) => if procedure.kind == ProcedureKind::Approach && procedure.airport_id.0@
                == airport_id@ {
                Some(c - 1)
            } else {
                None
            },
            _ => None,
        }
    } else {
        None
    }
}

/// The approach just before the airport at `component_index` that a new
/// approach would replace.
pub fn replaceable_procedure_component_before(plan: &FlightPlan, component_index: usize) -> (r:
    Option<usize>)
    ensures
        r == match spec_replaceable_procedure_before(
            plan.route_components@,
            component_index as int,
        ) {
            Some(i) => Some(i as usize),
            None => None,
        },
{
    let cs = &plan.route_components;
    if component_index == 0 || component_index >= cs.len() {
        return None;
    }
    match (&cs[component_index], &cs[component_index - 1]) {
        (
            RouteComponent::Waypoint { waypoint: NavRef::Airport(airport_id) },
            RouteComponent::Procedure { procedure },
        ) => {
            if procedure.kind == ProcedureKind::Approach && str_eq(
                procedure.airport_id.0.as_str(),
                airport_id.as_str(),
            ) {
                Some(component_index - 1)
            } else {
                None
            }
        },
        _ => None,
    }
}

/// Component `i` is a procedure of this kind.
pub open spec fn kind_at(cs: Seq<RouteComponent>, i: int, kind: ProcedureKind) -> bool {
    0 <= i < cs.len() && match cs[i] {
        RouteComponent::Procedure { procedure } => procedure.kind == kind,
        _ => false,
    }
}

/// The components that go with component `c` when it is removed: the
/// route's first component with the departure after it; the route's last
/// component, when it is an airport, with the approach and the arrival
/// before it; otherwise `c` alone. Given as the first and last index.
pub open spec fn spec_endpoint_range(cs: Seq<RouteComponent>, c: int) -> (int, int) {
    if c == 0 && kind_at(cs, 1, ProcedureKind::Sid) {
        (0, 1)
    } else if c + 1 == cs.len() && airport_of(cs[c]) is Some {
        let after_approach = if c > 0 && kind_at(cs, c - 1, ProcedureKind::Approach) {
            c - 1
        } else {
            c
        };
        let first = if after_approach > 0 && kind_at(cs, after_approach - 1, ProcedureKind::Star) {
            after_approach - 1
        } else {
            after_approach
        };
        (first, c)
    } else {
        (c, c)
    }
}

/// The components that go with component `component_index` when it is
/// removed, as the first and last index.
pub fn endpoint_with_attached_procedures_range(plan: &FlightPlan, component_index: usize) -> (r: (
    usize,
    usize,
))
    ensures
        (r.0 as int, r.1 as int) == spec_endpoint_range(
            plan.route_components@,
            component_index as int,
        ),
{
    let cs = &plan.route_components;
    let is_kind = |i: usize, kind: ProcedureKind| -> (b: bool)
        ensures
            b == kind_at(cs@, i as int, kind),
        {
            i < cs.len() && match &cs[i] {
                RouteComponent::Procedure { procedure } => procedure.kind == kind,
                _ => false,
            }
        };
    if component_index == 0 && is_kind(1, ProcedureKind::Sid) {
        return (0, 1);
    }
    let last_airport = component_index < cs.len() && component_index + 1 == cs.len() && match &cs[component_index] {
        RouteComponent::Waypoint { waypoint: NavRef::Airport(_) } => true,
        _ => false,
    };
    if last_airport {
        let mut first = component_index;
        if first > 0 && is_kind(first - 1, ProcedureKind::Approach) {
            first = first - 1;
        }
        if first > 0 && is_kind(first - 1, ProcedureKind::Star) {
            first = first - 1;
        }
        return (first, component_index);
    }
    (component_index, component_index)
}

/// Two components that the attachment rules cannot tell apart: the same
/// waypoint, two airways, or two procedures of one kind at one airport.
pub open spec fn attachment_alike(a: RouteComponent, b: RouteComponent) -> bool {
    match (a, b) {
        (RouteComponent::Waypoint { waypoint: x }, RouteComponent::Waypoint { waypoint: y }) => x
            == y,
        (RouteComponent::Airway { .. }, RouteComponent::Airway { .. }) => true,
        (RouteComponent::Procedure { procedure: p }, RouteComponent::Procedure { procedure: q }) =>
            p.kind == q.kind && p.airport_id.0@ == q.airport_id.0@,
        _ => false,
    }
}

/// Two routes that the attachment rules cannot tell apart, component by
/// component.
pub open spec fn routes_alike(a: Seq<RouteComponent>, b: Seq<RouteComponent>) -> bool {
    a.len() == b.len() && forall|i: int| 0 <= i < a.len() ==> attachment_alike(#[trigger] a[i], b[i])
}

proof fn lemma_alike_indices(a: Seq<RouteComponent>, b: Seq<RouteComponent>, kind: ProcedureKind)
    requires
        routes_alike(a, b),
    ensures
        procedure_indices(a, kind) == procedure_indices(b, kind),
    decreases a.len(),
{
    if a.len() > 0 {
        assert(routes_alike(a.drop_last(), b.drop_last())) by {
            assert forall|i: int| 0 <= i < a.drop_last().len() implies attachment_alike(
                #[trigger] a.drop_last()[i],
                b.drop_last()[i],
            ) by {
                assert(attachment_alike(a[i], b[i]));
            }
        }
        lemma_alike_indices(a.drop_last(), b.drop_last(), kind);
        assert(attachment_alike(a[a.len() - 1], b[b.len() - 1]));
    }
}

/// The attachment rules judge routes that they cannot tell apart alike.
pub proof fn lemma_alike_routes_same_violation(a: Seq<RouteComponent>, b: Seq<RouteComponent>)
    requires
        routes_alike(a, b),
    ensures
        attachment_violation(a) == attachment_violation(b),
{
    lemma_alike_indices(a, b, ProcedureKind::Sid);
    lemma_alike_indices(a, b, ProcedureKind::Star);
    lemma_alike_indices(a, b, ProcedureKind::Approach);
    assert forall|i: int| departure_attached(a, i) == departure_attached(b, i) by {
        if a.len() > 0 && 0 <= i < a.len() {
            assert(attachment_alike(a[0], b[0]));
            assert(attachment_alike(a[i], b[i]));
        }
    }
    assert forall|i: int, e: Option<int>| spec_terminal_matches_destination(a, i, e)
        == spec_terminal_matches_destination(b, i, e) by {
        if a.len() > 0 && 0 <= i < a.len() {
            assert(attachment_alike(a[i], b[i]));
            assert(attachment_alike(a[a.len() - 1], b[b.len() - 1]));
        }
    }
}

/// What the attachment rules read of a component.
fn attachment_skeleton(c: &RouteComponent) -> (r: RouteComponent)
    ensures
        attachment_alike(*c, r),
{
    match c {
        RouteComponent::Waypoint { waypoint } => RouteComponent::Waypoint {
            waypoint: waypoint.duplicate(),
        },
        RouteComponent::Airway { airway } => RouteComponent::Airway {
            airway: AirwaySegment {
                name: String::new(),
                branch_key: None,
                entry: airway.entry.duplicate(),
                exit: airway.exit.duplicate(),
            },
        },
        RouteComponent::Procedure { procedure } => RouteComponent::Procedure {
            procedure: ProcedureSegment {
                airport_id: AirportId(procedure.airport_id.0.clone()),
                procedure_id: String::new(),
                display_label: None,
                kind: procedure.kind,
                runway_transition: None,
                enroute_transition: None,
                terminal_discontinuity: None,
                data_quality: Vec::new(),
            },
        },
    }
}

/// The outcome of the attachment check of a route, as kind and text.
pub open spec fn attachment_outcome(cs: Seq<RouteComponent>) -> Result<
    (),
    (AppErrorKind, Seq<char>),
> {
    match attachment_violation(cs) {
        None => Ok(()),
        Some(kind) => Err((AppErrorKind::InvalidFlightPlan, attachment_message(kind))),
    }
}

/// An error's kind and text.
pub open spec fn check_of(r: Result<(), AppError>) -> Result<(), (AppErrorKind, Seq<char>)> {
    match r {
        Ok(()) => Ok(()),
        Err(e) => Err((e.kind, e.message@)),
    }
}

/// Checks the attachments of a route alike to `cs`.
fn validate_alike(skeleton: &Vec<RouteComponent>, Ghost(cs): Ghost<Seq<RouteComponent>>) -> (r:
    Result<(), AppError>)
    requires
        routes_alike(cs, skeleton@),
    ensures
        check_of(r) == attachment_outcome(cs),
{
    proof {
        lemma_alike_routes_same_violation(cs, skeleton@);
    }
    validate_procedure_attachments(skeleton.as_slice())
}

/// `component index out of bounds: {c}`.
pub open spec fn index_fault(c: int) -> (AppErrorKind, Seq<char>) {
    (AppErrorKind::UnsupportedOperation, "component index out of bounds: "@ + decimal(c as nat))
}

fn index_error(c: usize) -> (e: AppError)
    ensures
        (e.kind, e.message@) == index_fault(c as int),
{
    let mut message = owned("component index out of bounds: ");
    push_decimal(&mut message, c as u64);
    AppError { kind: AppErrorKind::UnsupportedOperation, message }
}

/// Removing component `c` and the procedures attached to it leaves the route
/// with its procedures attached.
pub open spec fn spec_removal_check(cs: Seq<RouteComponent>, c: int) -> Result<
    (),
    (AppErrorKind, Seq<char>),
> {
    if c >= cs.len() {
        Err(index_fault(c))
    } else {
        let range = spec_endpoint_range(cs, c);
        attachment_outcome(cs.take(range.0) + cs.skip(range.1 + 1))
    }
}

/// Checks that removing component `component_index`, with its attached
/// procedures, keeps the procedures of the route attached.
pub fn validate_component_removal_attachments(plan: &FlightPlan, component_index: usize) -> (r:
    Result<(), AppError>)
    ensures
        check_of(r) == spec_removal_check(plan.route_components@, component_index as int),
{
    let cs = &plan.route_components;
    if component_index >= cs.len() {
        return Err(index_error(component_index));
    }
    let (first, last) = endpoint_with_attached_procedures_range(plan, component_index);
    let ghost kept = cs@.take(first as int) + cs@.skip(last + 1);
    let mut skeleton: Vec<RouteComponent> = Vec::new();
    let mut i: usize = 0;
    while i < cs.len()
        invariant
            first <= last < cs.len(),
            i <= cs.len(),
            kept == cs@.take(first as int) + cs@.skip(last + 1),
            skeleton.len() == if i <= first {
                i as int
            } else if i <= last + 1 {
                first as int
            } else {
                i - (last + 1 - first)
            },
            forall|k: int| 0 <= k < skeleton.len() ==> attachment_alike(kept[k], #[trigger] skeleton@[k]),
        decreases cs.len() - i,
    {
        if i < first || i > last {
            skeleton.push(attachment_skeleton(&cs[i]));
        }
        i = i + 1;
    }
    validate_alike(&skeleton, Ghost(kept))
}

/// Removing everything above component `c` and `c` itself leaves the rest
/// of the route with its procedures attached.
pub open spec fn spec_remove_all_above_check(cs: Seq<RouteComponent>, c: int) -> Result<
    (),
    (AppErrorKind, Seq<char>),
> {
    if c >= cs.len() {
        Err(index_fault(c))
    } else {
        attachment_outcome(cs.skip(c + 1))
    }
}

/// Skeletons of the components from `from` on.
fn skeleton_from(cs: &Vec<RouteComponent>, from: usize) -> (r: Vec<RouteComponent>)
    requires
        from <= cs.len(),
    ensures
        routes_alike(cs@.skip(from as int), r@),
{
    let mut r: Vec<RouteComponent> = Vec::new();
    let mut i: usize = from;
    while i < cs.len()
        invariant
            from <= i <= cs.len(),
            r.len() == i - from,
            forall|k: int| 0 <= k < r.len() ==> attachment_alike(cs@[from + k], #[trigger] r@[k]),
        decreases cs.len() - i,
    {
        r.push(attachment_skeleton(&cs[i]));
        i = i + 1;
    }
    assert forall|k: int| 0 <= k < r.len() implies attachment_alike(
        #[trigger] cs@.skip(from as int)[k],
        r@[k],
    ) by {
        assert(cs@.skip(from as int)[k] == cs@[from + k]);
    }
    r
}

/// Checks that removing component `component_index` and everything above
/// it keeps the procedures of the rest of the route attached.
pub fn validate_remove_all_above_attachments(plan: &FlightPlan, component_index: usize) -> (r:
    Result<(), AppError>)
    ensures
        check_of(r) == spec_remove_all_above_check(plan.route_components@, component_index as int),
{
    if component_index >= plan.route_components.len() {
        return Err(index_error(component_index));
    }
    let skeleton = skeleton_from(&plan.route_components, component_index + 1);
    validate_alike(&skeleton, Ghost(plan.route_components@.skip(component_index + 1)))
}

/// `n` in decimal, with a minus sign when negative.
pub open spec fn signed_decimal(n: int) -> Seq<char> {
    if n < 0 {
        "-"@ + decimal((-n) as nat)
    } else {
        decimal(n as nat)
    }
}

/// Moving component `c` by `delta` places keeps the procedures of the route
/// attached; an error when the move leaves the route.
pub open spec fn spec_move_check(cs: Seq<RouteComponent>, c: int, delta: int) -> Result<
    (),
    (AppErrorKind, Seq<char>),
> {
    if c >= cs.len() {
        Err(index_fault(c))
    } else if c + delta < 0 || c + delta >= cs.len() {
        Err(
            (
                AppErrorKind::UnsupportedOperation,
                "component move out of bounds: "@ + decimal(c as nat) + " -> "@ + signed_decimal(
                    c + delta,
                ),
            ),
        )
    } else {
        attachment_outcome(cs.remove(c).insert(c + delta, cs[c]))
    }
}

/// Checks that moving component `component_index` by `delta` places keeps
/// the procedures of the route attached.
pub fn validate_component_move_attachments(
    plan: &FlightPlan,
    component_index: usize,
    delta: isize,
) -> (r: Result<(), AppError>)
    requires
        component_index < plan.route_components.len() ==> isize::MIN <= component_index + delta
            <= isize::MAX,
    ensures
        check_of(r) == spec_move_check(
            plan.route_components@,
            component_index as int,
            delta as int,
        ),
{
    let cs = &plan.route_components;
    if component_index >= cs.len() {
        return Err(index_error(component_index));
    }
    let target: i128 = component_index as i128 + delta as i128;
    if target < 0 || target >= cs.len() as i128 {
        let mut message = owned("component move out of bounds: ");
        push_decimal(&mut message, component_index as u64);
        push_str(&mut message, " -> ");
        if target < 0 {
            push_str(&mut message, "-");
            push_decimal(&mut message, (-target) as u64);
            assert(message@ =~= "component move out of bounds: "@ + decimal(
                component_index as nat,
            ) + " -> "@ + signed_decimal(target as int));
        } else {
            push_decimal(&mut message, target as u64);
        }
        return Err(AppError { kind: AppErrorKind::UnsupportedOperation, message });
    }
    let target = target as usize;
    let ghost moved = cs@.remove(component_index as int).insert(
        target as int,
        cs@[component_index as int],
    );
    let mut skeleton: Vec<RouteComponent> = Vec::new();
    let mut i: usize = 0;
    while i < cs.len()
        invariant
            component_index < cs.len(),
            target < cs.len(),
            moved == cs@.remove(component_index as int).insert(
                target as int,
                cs@[component_index as int],
            ),
            moved.len() == cs.len(),
            i <= cs.len(),
            skeleton.len() == i,
            forall|k: int| 0 <= k < i ==> attachment_alike(moved[k], #[trigger] skeleton@[k]),
        decreases cs.len() - i,
    {
        let source = if i == target {
            component_index
        } else if component_index < target {
            if i >= component_index && i < target {
                i + 1
            } else {
                i
            }
        } else {
            if i > target && i <= component_index {
                i - 1
            } else {
                i
            }
        };
        assert(moved[i as int] == cs@[source as int]);
        skeleton.push(attachment_skeleton(&cs[source]));
        i = i + 1;
    }
    validate_alike(&skeleton, Ghost(moved))
}

/// Inserting a waypoint at `i` keeps the procedures of the route attached;
/// an error past the route's end.
pub open spec fn spec_insertion_index_check(cs: Seq<RouteComponent>, i: int) -> Result<
    (),
    (AppErrorKind, Seq<char>),
> {
    if i > cs.len() {
        Err(
            (
                AppErrorKind::UnsupportedOperation,
                "insertion index out of bounds: "@ + decimal(i as nat),
            ),
        )
    } else {
        attachment_outcome(
            cs.insert(
                i,
                RouteComponent::Waypoint { waypoint: NavRef::Spot(LatLon { lat_e7: 0, lon_e7: 0 }) },
            ),
        )
    }
}

/// Checks that inserting a waypoint at `insertion_index` keeps the
/// procedures of the route attached.
pub fn validate_waypoint_insertion_index_attachments(plan: &FlightPlan, insertion_index: usize) -> (r:
    Result<(), AppError>)
    ensures
        check_of(r) == spec_insertion_index_check(plan.route_components@, insertion_index as int),
{
    let cs = &plan.route_components;
    if insertion_index > cs.len() {
        let mut message = owned("insertion index out of bounds: ");
        push_decimal(&mut message, insertion_index as u64);
        return Err(AppError { kind: AppErrorKind::UnsupportedOperation, message });
    }
    let ghost inserted = cs@.insert(
        insertion_index as int,
        RouteComponent::Waypoint { waypoint: NavRef::Spot(LatLon { lat_e7: 0, lon_e7: 0 }) },
    );
    let mut skeleton: Vec<RouteComponent> = Vec::new();
    let mut i: usize = 0;
    while i < insertion_index
        invariant
            insertion_index <= cs.len(),
            i <= insertion_index,
            skeleton.len() == i,
            forall|k: int| 0 <= k < i ==> attachment_alike(inserted[k], #[trigger] skeleton@[k]),
            inserted == cs@.insert(
                insertion_index as int,
                RouteComponent::Waypoint { waypoint: NavRef::Spot(LatLon { lat_e7: 0, lon_e7: 0 }) },
            ),
        decreases insertion_index - i,
    {
        skeleton.push(attachment_skeleton(&cs[i]));
        i = i + 1;
    }
    skeleton.push(
        RouteComponent::Waypoint { waypoint: NavRef::Spot(LatLon { lat_e7: 0, lon_e7: 0 }) },
    );
    while i < cs.len()
        invariant
            insertion_index <= i <= cs.len(),
            skeleton.len() == i + 1,
            forall|k: int| 0 <= k <= i ==> attachment_alike(inserted[k], #[trigger] skeleton@[k]),
            inserted == cs@.insert(
                insertion_index as int,
                RouteComponent::Waypoint { waypoint: NavRef::Spot(LatLon { lat_e7: 0, lon_e7: 0 }) },
            ),
        decreases cs.len() - i,
    {
        skeleton.push(attachment_skeleton(&cs[i]));
        i = i + 1;
    }
    validate_alike(&skeleton, Ghost(inserted))
}

/// Inserting a waypoint before or after component `c` keeps the procedures
/// of the route attached.
pub open spec fn spec_insertion_check(cs: Seq<RouteComponent>, c: int, before: bool) -> Result<
    (),
    (AppErrorKind, Seq<char>),
> {
    if c >= cs.len() {
        Err(index_fault(c))
    } else {
        spec_insertion_index_check(cs, if before { c } else { c + 1 })
    }
}

/// Checks that inserting a waypoint before or after component
/// `component_index` keeps the procedures of the route attached.
pub fn validate_waypoint_insertion_attachments(
    plan: &FlightPlan,
    component_index: usize,
    before: bool,
) -> (r: Result<(), AppError>)
    ensures
        check_of(r) == spec_insertion_check(plan.route_components@, component_index as int, before),
{
    if component_index >= plan.route_components.len() {
        return Err(index_error(component_index));
    }
    let insertion_index = if before {
        component_index
    } else {
        component_index + 1
    };
    validate_waypoint_insertion_index_attachments(plan, insertion_index)
}

} // verus!
