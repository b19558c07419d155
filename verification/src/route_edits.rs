//! Route edits: for each edit, the checks it makes and the components the
//! route is rebuilt from, each kept component with its uid and the legs it
//! keeps, each new one with the legs it brings.
use crate::attachment::{
    index_fault, signed_decimal, attached_procedure_component_index, endpoint_with_attached_procedures_range,
    procedure_component_index_for_load, spec_attached_procedure, spec_endpoint_range,
    spec_procedure_load_index,
};
use crate::component_views::kept_legs;
use crate::flight_plan::{FlightPlan, ResolvedLeg};
use crate::row_actions::AIRWAY_ENDPOINT_REMOVE_DISABLED_REASON;
use crate::nav::{nav_ref_eq, nav_ref_label, same_nav_ref, spec_nav_ref_label, NavRef};
use crate::route::{adjacent_waypoint_component, spec_adjacent_waypoint};
use crate::rebuild::{grouped_component_legs, spec_grouped_legs, RebuiltRouteComponent};
use crate::route::{
    procedure_attachment_error, same_component, AirwaySegment, AppError, AppErrorKind,
    ProcedureKind, ProcedureSegment, RouteComponent, APPROACH_ATTACHMENT_MESSAGE,
    ARRIVAL_ATTACHMENT_MESSAGE,
};
use crate::text::{
    ascii_upper, decimal, owned, push_decimal, push_str, str_eq, to_ascii_uppercase, trim, trimmed,
};
use vstd::prelude::*;

verus! {

/// An error as its kind and message.
pub open spec fn error_of(e: AppError) -> (AppErrorKind, Seq<char>) {
    (e.kind, e.message@)
}

/// `r` is the old component `i` of `p`: its uid, the component, and the legs
/// it keeps.
pub open spec fn existing_component(p: FlightPlan, i: int, r: RebuiltRouteComponent) -> bool {
    &&& r.uid == if 0 <= i < p.route_component_uids.len() {
        Some(p.route_component_uids@[i])
    } else {
        None
    }
    &&& same_component(r.component, p.route_components@[i])
    &&& match r.preserved_legs {
        Some(v) => spec_grouped_legs(p, i) == Some(v@),
        None => spec_grouped_legs(p, i) is None,
    }
}

/// `r` is the new component `c`, with no uid yet, keeping `legs` when there
/// are any to keep.
pub open spec fn new_component(
    c: RouteComponent,
    legs: Option<Seq<ResolvedLeg>>,
    r: RebuiltRouteComponent,
) -> bool {
    &&& r.uid is None
    &&& r.component == c
    &&& match r.preserved_legs {
        Some(v) => legs == Some(v@),
        None => legs is None,
    }
}

/// From place `at` on, `rs` holds the old components `lo..hi` of `p`, in
/// order.
pub open spec fn kept_run(p: FlightPlan, rs: Seq<RebuiltRouteComponent>, at: int, lo: int, hi: int) -> bool {
    forall|m: int| at <= m < at + (hi - lo) ==> existing_component(p, m - at + lo, #[trigger] rs[m])
}

/// The old component `old_index`, as a component of the rebuilt route.
pub fn rebuilt_existing_component(
    plan: &FlightPlan,
    old_grouped_legs: &Vec<Option<Vec<ResolvedLeg>>>,
    old_index: usize,
) -> (r: RebuiltRouteComponent)
    requires
        old_index < plan.route_components.len(),
        old_grouped_legs.len() == plan.route_components.len(),
        forall|c: int|
            0 <= c < old_grouped_legs.len() ==> match #[trigger] old_grouped_legs@[c] {
                Some(v) => spec_grouped_legs(*plan, c) == Some(v@),
                None => spec_grouped_legs(*plan, c) is None,
            },
    ensures
        existing_component(*plan, old_index as int, r),
{
    let uid = if old_index < plan.route_component_uids.len() {
        Some(plan.route_component_uids[old_index].clone())
    } else {
        None
    };
    let preserved_legs = match &old_grouped_legs[old_index] {
        Some(v) => {
            let mut copy: Vec<ResolvedLeg> = Vec::new();
            let mut k: usize = 0;
            while k < v.len()
                invariant
                    k <= v@.len(),
                    copy@ == v@.take(k as int),
                decreases v@.len() - k,
            {
                copy.push(v[k].duplicate());
                assert(v@.take(k + 1) =~= v@.take(k as int).push(v@[k as int]));
                k = k + 1;
            }
            assert(v@.take(v@.len() as int) =~= v@);
            Some(copy)
        },
        None => None,
    };
    proof {
        assert(old_grouped_legs@[old_index as int] == old_grouped_legs@[old_index as int]);
    }
    RebuiltRouteComponent {
        uid,
        component: plan.route_components[old_index].duplicate(),
        preserved_legs,
    }
}

/// A new component of the rebuilt route.
pub fn rebuilt_new_component(component: RouteComponent, preserved_legs: Option<Vec<ResolvedLeg>>) -> (r:
    RebuiltRouteComponent)
    ensures
        new_component(
            component,
            match preserved_legs {
                Some(v) => Some(v@),
                None => None,
            },
            r,
        ),
{
    RebuiltRouteComponent { uid: None, component, preserved_legs }
}

/// Appends the old components `lo..hi`.
fn push_kept(
    plan: &FlightPlan,
    grouped: &Vec<Option<Vec<ResolvedLeg>>>,
    lo: usize,
    hi: usize,
    rs: &mut Vec<RebuiltRouteComponent>,
)
    requires
        lo <= hi <= plan.route_components.len(),
        grouped.len() == plan.route_components.len(),
        forall|c: int|
            0 <= c < grouped.len() ==> match #[trigger] grouped@[c] {
                Some(v) => spec_grouped_legs(*plan, c) == Some(v@),
                None => spec_grouped_legs(*plan, c) is None,
            },
    ensures
        final(rs)@.len() == old(rs)@.len() + (hi - lo),
        final(rs)@.take(old(rs)@.len() as int) == old(rs)@,
        kept_run(*plan, final(rs)@, old(rs)@.len() as int, lo as int, hi as int),
{
    let ghost start = rs@;
    let mut k: usize = lo;
    while k < hi
        invariant
            lo <= k <= hi <= plan.route_components.len(),
            grouped.len() == plan.route_components.len(),
            forall|c: int|
                0 <= c < grouped.len() ==> match #[trigger] grouped@[c] {
                    Some(v) => spec_grouped_legs(*plan, c) == Some(v@),
                    None => spec_grouped_legs(*plan, c) is None,
                },
            rs@.len() == start.len() + (k - lo),
            rs@.take(start.len() as int) == start,
            kept_run(*plan, rs@, start.len() as int, lo as int, k as int),
        decreases hi - k,
    {
        let ghost before = rs@;
        rs.push(rebuilt_existing_component(plan, grouped, k));
        assert(rs@.take(start.len() as int) =~= before.take(start.len() as int));
        k = k + 1;
    }
}

/// `what` insertion over the waypoint span from `start` to `end`: the span
/// must increase, both ends must be waypoint components of the route, and
/// only waypoints may lie between them.
pub open spec fn spec_span_check(cs: Seq<RouteComponent>, start: int, end: int, what: Seq<char>) -> Result<
    (),
    (AppErrorKind, Seq<char>),
> {
    if start >= end {
        Err(
            (
                AppErrorKind::UnsupportedOperation,
                what + " insertion requires an increasing waypoint span, got start="@ + decimal(
                    start as nat,
                ) + " end="@ + decimal(end as nat),
            ),
        )
    } else if start >= cs.len() {
        Err((AppErrorKind::UnsupportedOperation, "component index out of bounds: "@ + decimal(start as nat)))
    } else if !(cs[start] is Waypoint) {
        Err(
            (
                AppErrorKind::UnsupportedOperation,
                what + " insertion start must be a waypoint component"@,
            ),
        )
    } else if end >= cs.len() {
        Err((AppErrorKind::UnsupportedOperation, "component index out of bounds: "@ + decimal(end as nat)))
    } else if !(cs[end] is Waypoint) {
        Err((AppErrorKind::UnsupportedOperation, what + " insertion end must be a waypoint component"@))
    } else if exists|k: int| start < k < end && !(#[trigger] cs[k] is Waypoint) {
        Err(
            (
                AppErrorKind::UnsupportedOperation,
                what
                    + " insertion cannot replace a span containing grouped components; flatten or remove them first"@,
            ),
        )
    } else {
        Ok(())
    }
}

/// An error of the kind with the message.
fn app_error(kind: AppErrorKind, message: String) -> (r: AppError)
    ensures
        r.kind == kind,
        r.message@ == message@,
{
    AppError { kind, message }
}

/// The message that an index lies outside the route.
fn out_of_bounds_message(index: usize) -> (r: String)
    ensures
        r@ == "component index out of bounds: "@ + decimal(index as nat),
{
    let mut m = owned("component index out of bounds: ");
    push_decimal(&mut m, index as u64);
    m
}

/// Checks a waypoint span for a `what` insertion.
fn check_waypoint_span(plan: &FlightPlan, start: usize, end: usize, what: &str) -> (r: Result<
    (),
    AppError,
>)
    ensures
        match spec_span_check(plan.route_components@, start as int, end as int, what@) {
            Ok(()) => r is Ok,
            Err(e) => r matches Err(x) && error_of(x) == e,
        },
{
    let cs = &plan.route_components;
    if start >= end {
        let mut m = owned(what);
        push_str(&mut m, " insertion requires an increasing waypoint span, got start=");
        push_decimal(&mut m, start as u64);
        push_str(&mut m, " end=");
        push_decimal(&mut m, end as u64);
        return Err(app_error(AppErrorKind::UnsupportedOperation, m));
    }
    if start >= cs.len() {
        return Err(app_error(AppErrorKind::UnsupportedOperation, out_of_bounds_message(start)));
    }
    if !cs[start].is_waypoint() {
        let mut m = owned(what);
        push_str(&mut m, " insertion start must be a waypoint component");
        return Err(app_error(AppErrorKind::UnsupportedOperation, m));
    }
    if end >= cs.len() {
        return Err(app_error(AppErrorKind::UnsupportedOperation, out_of_bounds_message(end)));
    }
    if !cs[end].is_waypoint() {
        let mut m = owned(what);
        push_str(&mut m, " insertion end must be a waypoint component");
        return Err(app_error(AppErrorKind::UnsupportedOperation, m));
    }
    let mut k: usize = start + 1;
    while k < end
        invariant
            cs@ == plan.route_components@,
            start < end < cs@.len(),
            cs@[start as int] is Waypoint,
            cs@[end as int] is Waypoint,
            start + 1 <= k <= end,
            forall|j: int| start < j < k ==> cs@[j] is Waypoint,
        decreases end - k,
    {
        if !cs[k].is_waypoint() {
            assert(!(cs@[k as int] is Waypoint));
            let mut m = owned(what);
            push_str(
                &mut m,
                " insertion cannot replace a span containing grouped components; flatten or remove them first",
            );
            return Err(app_error(AppErrorKind::UnsupportedOperation, m));
        }
        k = k + 1;
    }
    Ok(())
}

/// The component at `i` is the waypoint `n`.
pub open spec fn waypoint_is(cs: Seq<RouteComponent>, i: int, n: NavRef) -> bool {
    cs[i] matches RouteComponent::Waypoint { waypoint } && same_nav_ref(waypoint, n)
}

/// The airway replaces the span from `start` to `end`: the components
/// before the span are kept, and the span's ends too unless the airway
/// begins or ends at them; the airway comes in between.
pub open spec fn airway_insertion_list(
    p: FlightPlan,
    start: int,
    end: int,
    airway: AirwaySegment,
    legs: Seq<ResolvedLeg>,
    rs: Seq<RebuiltRouteComponent>,
) -> bool {
    let cs = p.route_components@;
    let keep_before = if waypoint_is(cs, start, airway.entry) {
        start
    } else {
        start + 1
    };
    let keep_from = if waypoint_is(cs, end, airway.exit) {
        end + 1
    } else {
        end
    };
    &&& rs.len() == keep_before + 1 + (cs.len() - keep_from)
    &&& kept_run(p, rs, 0, 0, keep_before)
    &&& new_component(RouteComponent::Airway { airway }, Some(legs), rs[keep_before])
    &&& kept_run(p, rs, keep_before + 1, keep_from, cs.len() as int)
}

fn waypoint_at_is(cs: &Vec<RouteComponent>, i: usize, n: &NavRef) -> (r: bool)
    requires
        i < cs.len(),
    ensures
        r == waypoint_is(cs@, i as int, *n),
{
    match &cs[i] {
        RouteComponent::Waypoint { waypoint } => nav_ref_eq(waypoint, n),
        _ => false,
    }
}

/// What `airway_insertion_components` gives: its checks' error, or the components it lists.
pub open spec fn airway_insertion_outcome(
    plan: FlightPlan,
    start_component_index: usize,
    end_component_index: usize,
    airway: AirwaySegment,
    airway_legs: Vec<ResolvedLeg>,
    r: Result<Vec<RebuiltRouteComponent>, AppError>,
) -> bool {
    match spec_span_check(
        plan.route_components@,
        start_component_index as int,
        end_component_index as int,
        "airway"@,
    ) {
        Ok(()) => r matches Ok(rs) && airway_insertion_list(
            plan,
            start_component_index as int,
            end_component_index as int,
            airway,
            airway_legs@,
            rs@,
        ),
        Err(e) => r matches Err(x) && error_of(x) == e,
    }
}

/// The components an airway insertion between waypoints rebuilds the route
/// from, once the span is checked.
pub fn airway_insertion_components(
    plan: &FlightPlan,
    start_component_index: usize,
    end_component_index: usize,
    airway: AirwaySegment,
    airway_legs: Vec<ResolvedLeg>,
) -> (r: Result<Vec<RebuiltRouteComponent>, AppError>)
    ensures
        airway_insertion_outcome(*plan, start_component_index, end_component_index, airway, airway_legs, r),
{
    match check_waypoint_span(plan, start_component_index, end_component_index, "airway") {
        Err(e) => {
            return Err(e);
        },
        Ok(()) => {},
    }
    let cs = &plan.route_components;
    let keep_before = if waypoint_at_is(cs, start_component_index, &airway.entry) {
        start_component_index
    } else {
        start_component_index + 1
    };
    let keep_from = if waypoint_at_is(cs, end_component_index, &airway.exit) {
        end_component_index + 1
    } else {
        end_component_index
    };
    let grouped = grouped_component_legs(plan);
    let mut rs: Vec<RebuiltRouteComponent> = Vec::new();
    push_kept(plan, &grouped, 0, keep_before, &mut rs);
    let ghost before = rs@;
    let ghost legs = airway_legs@;
    rs.push(rebuilt_new_component(RouteComponent::Airway { airway }, Some(airway_legs)));
    let ghost middle = rs@;
    push_kept(plan, &grouped, keep_from, cs.len(), &mut rs);
    proof {
        assert forall|m: int| 0 <= m < keep_before implies existing_component(
            *plan,
            m,
            #[trigger] rs@[m],
        ) by {
            assert(rs@[m] == middle[m]);
            assert(middle[m] == before[m]);
        }
        assert(rs@[keep_before as int] == middle[keep_before as int]);
    }
    Ok(rs)
}

/// The procedure replaces the waypoints strictly between `start` and `end`.
pub open spec fn procedure_insertion_list(
    p: FlightPlan,
    start: int,
    end: int,
    procedure: ProcedureSegment,
    legs: Seq<ResolvedLeg>,
    rs: Seq<RebuiltRouteComponent>,
) -> bool {
    let cs = p.route_components@;
    &&& rs.len() == start + 2 + (cs.len() - end)
    &&& kept_run(p, rs, 0, 0, start + 1)
    &&& new_component(RouteComponent::Procedure { procedure }, Some(legs), rs[start + 1])
    &&& kept_run(p, rs, start + 2, end, cs.len() as int)
}

/// What `procedure_insertion_components` gives: its checks' error, or the components it lists.
pub open spec fn procedure_insertion_outcome(
    plan: FlightPlan,
    start_component_index: usize,
    end_component_index: usize,
    procedure: ProcedureSegment,
    procedure_legs: Vec<ResolvedLeg>,
    r: Result<Vec<RebuiltRouteComponent>, AppError>,
) -> bool {
    match spec_span_check(
        plan.route_components@,
        start_component_index as int,
        end_component_index as int,
        "procedure"@,
    ) {
        Ok(()) => r matches Ok(rs) && procedure_insertion_list(
            plan,
            start_component_index as int,
            end_component_index as int,
            procedure,
            procedure_legs@,
            rs@,
        ),
        Err(e) => r matches Err(x) && error_of(x) == e,
    }
}

/// The components a procedure insertion between waypoints rebuilds the
/// route from, once the span is checked.
pub fn procedure_insertion_components(
    plan: &FlightPlan,
    start_component_index: usize,
    end_component_index: usize,
    procedure: ProcedureSegment,
    procedure_legs: Vec<ResolvedLeg>,
) -> (r: Result<Vec<RebuiltRouteComponent>, AppError>)
    ensures
        procedure_insertion_outcome(*plan, start_component_index, end_component_index, procedure, procedure_legs, r),
{
    match check_waypoint_span(plan, start_component_index, end_component_index, "procedure") {
        Err(e) => {
            return Err(e);
        },
        Ok(()) => {},
    }
    let n = plan.route_components.len();
    let grouped = grouped_component_legs(plan);
    let mut rs: Vec<RebuiltRouteComponent> = Vec::new();
    push_kept(plan, &grouped, 0, start_component_index + 1, &mut rs);
    let ghost before = rs@;
    rs.push(rebuilt_new_component(RouteComponent::Procedure { procedure }, Some(procedure_legs)));
    let ghost middle = rs@;
    push_kept(plan, &grouped, end_component_index, n, &mut rs);
    proof {
        assert forall|m: int| 0 <= m < start_component_index + 1 implies existing_component(
            *plan,
            m,
            #[trigger] rs@[m],
        ) by {
            assert(rs@[m] == middle[m]);
            assert(middle[m] == before[m]);
        }
        assert(rs@[start_component_index + 1] == middle[start_component_index + 1]);
    }
    Ok(rs)
}

/// The name of a terminal procedure kind in a message.
pub open spec fn terminal_kind_name(kind: ProcedureKind) -> Seq<char> {
    if kind == ProcedureKind::Star {
        "arrival"@
    } else {
        "approach"@
    }
}

/// The checks of a STAR or approach insertion before the airport at `a`, and
/// where the procedure then goes: it must be a STAR or approach with legs,
/// `a` must be the destination airport and the procedure's airport, and no
/// procedure of its kind may be attached there yet.
pub open spec fn spec_terminal_insertion(
    cs: Seq<RouteComponent>,
    a: int,
    procedure: ProcedureSegment,
    has_legs: bool,
) -> Result<int, (AppErrorKind, Seq<char>)> {
    if !(procedure.kind == ProcedureKind::Star || procedure.kind == ProcedureKind::Approach) {
        Err((AppErrorKind::InvalidFlightPlan, "terminal procedure insertion requires a STAR or approach"@))
    } else if !has_legs {
        Err((AppErrorKind::InvalidFlightPlan, "terminal procedure must contain at least one resolved leg"@))
    } else if a >= cs.len() {
        Err((AppErrorKind::UnsupportedOperation, "component index out of bounds: "@ + decimal(a as nat)))
    } else {
        match cs[a] {
            RouteComponent::Waypoint { waypoint: NavRef::Airport(airport_id) } => if a + 1 != cs.len()
                || trimmed(airport_id@) != trimmed(procedure.airport_id.0@) {
                Err(
                    (
                        AppErrorKind::InvalidFlightPlan,
                        if procedure.kind == ProcedureKind::Star {
                            ARRIVAL_ATTACHMENT_MESSAGE@
                        } else {
                            APPROACH_ATTACHMENT_MESSAGE@
                        },
                    ),
                )
            } else if spec_attached_procedure(cs, a, procedure.kind) is Some {
                Err(
                    (
                        AppErrorKind::UnsupportedOperation,
                        "replace the existing "@ + terminal_kind_name(procedure.kind)
                            + " instead of inserting another"@,
                    ),
                )
            } else {
                spec_procedure_load_index(cs, a, procedure.kind)
            },
            _ => Err(
                (AppErrorKind::UnsupportedOperation, "terminal procedure target must be an airport waypoint"@),
            ),
        }
    }
}

/// The procedure goes in at place `at` among the kept components; past the
/// end of the route, nothing is inserted.
pub open spec fn insertion_list(
    p: FlightPlan,
    at: int,
    c: RouteComponent,
    legs: Option<Seq<ResolvedLeg>>,
    rs: Seq<RebuiltRouteComponent>,
) -> bool {
    let n = p.route_components.len() as int;
    if 0 <= at < n {
        &&& rs.len() == n + 1
        &&& kept_run(p, rs, 0, 0, at)
        &&& new_component(c, legs, rs[at])
        &&& kept_run(p, rs, at + 1, at, n)
    } else {
        rs.len() == n && kept_run(p, rs, 0, 0, n)
    }
}

/// Every component is kept, and the new one comes last.
pub open spec fn appended_list(
    p: FlightPlan,
    c: RouteComponent,
    legs: Option<Seq<ResolvedLeg>>,
    rs: Seq<RebuiltRouteComponent>,
) -> bool {
    let n = p.route_components.len() as int;
    &&& rs.len() == n + 1
    &&& kept_run(p, rs, 0, 0, n)
    &&& new_component(c, legs, rs[n])
}

/// Appends the kept components with the new one at place `at`.
fn insertion_components(
    plan: &FlightPlan,
    at: usize,
    component: RouteComponent,
    legs: Option<Vec<ResolvedLeg>>,
) -> (rs: Vec<RebuiltRouteComponent>)
    ensures
        insertion_list(
            *plan,
            at as int,
            component,
            match legs {
                Some(v) => Some(v@),
                None => None,
            },
            rs@,
        ),
{
    let n = plan.route_components.len();
    let grouped = grouped_component_legs(plan);
    let mut rs: Vec<RebuiltRouteComponent> = Vec::new();
    if at < n {
        push_kept(plan, &grouped, 0, at, &mut rs);
        let ghost before = rs@;
        rs.push(rebuilt_new_component(component, legs));
        let ghost middle = rs@;
        push_kept(plan, &grouped, at, n, &mut rs);
        proof {
            assert forall|m: int| 0 <= m < at implies existing_component(
                *plan,
                m,
                #[trigger] rs@[m],
            ) by {
                assert(rs@[m] == middle[m]);
                assert(middle[m] == before[m]);
            }
            assert(rs@[at as int] == middle[at as int]);
        }
    } else {
        push_kept(plan, &grouped, 0, n, &mut rs);
    }
    rs
}

/// What `terminal_procedure_insertion_components` gives: its checks' error, or the components it lists.
pub open spec fn terminal_procedure_insertion_outcome(
    plan: FlightPlan,
    airport_component_index: usize,
    procedure: ProcedureSegment,
    procedure_legs: Vec<ResolvedLeg>,
    r: Result<Vec<RebuiltRouteComponent>, AppError>,
) -> bool {
    match spec_terminal_insertion(
        plan.route_components@,
        airport_component_index as int,
        procedure,
        procedure_legs@.len() > 0,
    ) {
        Ok(at) => r matches Ok(rs) && insertion_list(
            plan,
            at,
            RouteComponent::Procedure { procedure },
            Some(procedure_legs@),
            rs@,
        ),
        Err(e) => r matches Err(x) && error_of(x) == e,
    }
}

/// The components a STAR or approach insertion before the destination
/// airport rebuilds the route from, once it is checked.
pub fn terminal_procedure_insertion_components(
    plan: &FlightPlan,
    airport_component_index: usize,
    procedure: ProcedureSegment,
    procedure_legs: Vec<ResolvedLeg>,
) -> (r: Result<Vec<RebuiltRouteComponent>, AppError>)
    ensures
        terminal_procedure_insertion_outcome(*plan, airport_component_index, procedure, procedure_legs, r),
{
    if !(procedure.kind == ProcedureKind::Star || procedure.kind == ProcedureKind::Approach) {
        return Err(
            app_error(
                AppErrorKind::InvalidFlightPlan,
                owned("terminal procedure insertion requires a STAR or approach"),
            ),
        );
    }
    if procedure_legs.len() == 0 {
        return Err(
            app_error(
                AppErrorKind::InvalidFlightPlan,
                owned("terminal procedure must contain at least one resolved leg"),
            ),
        );
    }
    let cs = &plan.route_components;
    let a = airport_component_index;
    if a >= cs.len() {
        return Err(app_error(AppErrorKind::UnsupportedOperation, out_of_bounds_message(a)));
    }
    let airport_id = match &cs[a] {
        RouteComponent::Waypoint { waypoint: NavRef::Airport(airport_id) } => airport_id,
        _ => {
            return Err(
                app_error(
                    AppErrorKind::UnsupportedOperation,
                    owned("terminal procedure target must be an airport waypoint"),
                ),
            );
        },
    };
    if a + 1 != cs.len() || !str_eq(trim(airport_id.as_str()), trim(procedure.airport_id.0.as_str())) {
        let message = if procedure.kind == ProcedureKind::Star {
            ARRIVAL_ATTACHMENT_MESSAGE
        } else {
            APPROACH_ATTACHMENT_MESSAGE
        };
        return Err(procedure_attachment_error(message));
    }
    if attached_procedure_component_index(plan, a, procedure.kind).is_some() {
        let mut m = owned("replace the existing ");
        push_str(&mut m, if procedure.kind == ProcedureKind::Star { "arrival" } else { "approach" });
        push_str(&mut m, " instead of inserting another");
        return Err(app_error(AppErrorKind::UnsupportedOperation, m));
    }
    let at = match procedure_component_index_for_load(plan, a, procedure.kind) {
        Ok(at) => at,
        Err(e) => {
            return Err(e);
        },
    };
    let ghost legs = procedure_legs@;
    Ok(
        insertion_components(
            plan,
            at,
            RouteComponent::Procedure { procedure },
            Some(procedure_legs),
        ),
    )
}

/// The checks of inserting the first procedure before the route's first
/// component: that component must be the one named, then as for any STAR or
/// approach insertion.
pub open spec fn spec_initial_insertion(
    cs: Seq<RouteComponent>,
    a: int,
    procedure: ProcedureSegment,
    has_legs: bool,
) -> Result<int, (AppErrorKind, Seq<char>)> {
    if a != 0 {
        Err(
            (
                AppErrorKind::UnsupportedOperation,
                "initial procedure insertion requires the first component, got "@ + decimal(a as nat),
            ),
        )
    } else {
        spec_terminal_insertion(cs, a, procedure, has_legs)
    }
}

/// What `initial_procedure_insertion_components` gives: its checks' error, or the components it lists.
pub open spec fn initial_procedure_insertion_outcome(
    plan: FlightPlan,
    airport_component_index: usize,
    procedure: ProcedureSegment,
    procedure_legs: Vec<ResolvedLeg>,
    r: Result<Vec<RebuiltRouteComponent>, AppError>,
) -> bool {
    match spec_initial_insertion(
        plan.route_components@,
        airport_component_index as int,
        procedure,
        procedure_legs@.len() > 0,
    ) {
        Ok(at) => r matches Ok(rs) && insertion_list(
            plan,
            at,
            RouteComponent::Procedure { procedure },
            Some(procedure_legs@),
            rs@,
        ),
        Err(e) => r matches Err(x) && error_of(x) == e,
    }
}

/// The components an insertion of the first procedure before the airport
/// that starts the route rebuilds the route from, once it is checked.
pub fn initial_procedure_insertion_components(
    plan: &FlightPlan,
    airport_component_index: usize,
    procedure: ProcedureSegment,
    procedure_legs: Vec<ResolvedLeg>,
) -> (r: Result<Vec<RebuiltRouteComponent>, AppError>)
    ensures
        initial_procedure_insertion_outcome(*plan, airport_component_index, procedure, procedure_legs, r),
{
    if airport_component_index != 0 {
        let mut m = owned("initial procedure insertion requires the first component, got ");
        push_decimal(&mut m, airport_component_index as u64);
        return Err(app_error(AppErrorKind::UnsupportedOperation, m));
    }
    terminal_procedure_insertion_components(plan, airport_component_index, procedure, procedure_legs)
}

/// The checks of a departure insertion after the origin airport: at the
/// first component, a SID with legs, from the airport that starts the
/// route, where no departure is attached yet.
pub open spec fn spec_departure_insertion(
    cs: Seq<RouteComponent>,
    a: int,
    procedure: ProcedureSegment,
    has_legs: bool,
) -> Result<(), (AppErrorKind, Seq<char>)> {
    if a != 0 {
        Err(
            (
                AppErrorKind::UnsupportedOperation,
                "departure insertion requires the first component, got "@ + decimal(a as nat),
            ),
        )
    } else if procedure.kind != ProcedureKind::Sid {
        Err((AppErrorKind::InvalidFlightPlan, "departure insertion requires a SID procedure"@))
    } else if !has_legs {
        Err((AppErrorKind::InvalidFlightPlan, "departure procedure must contain at least one resolved leg"@))
    } else if cs.len() == 0 {
        Err((AppErrorKind::UnsupportedOperation, "departure insertion requires a flight-plan origin"@))
    } else if !(cs[0] is Waypoint) {
        Err((AppErrorKind::UnsupportedOperation, "departure insertion target must be an airport waypoint"@))
    } else if !(cs[0] matches RouteComponent::Waypoint { waypoint: NavRef::Airport(id) } && trimmed(id@)
        == trimmed(procedure.airport_id.0@)) {
        Err((AppErrorKind::InvalidFlightPlan, "departure airport does not match the flight-plan origin"@))
    } else if cs.len() > 1 && (cs[1] matches RouteComponent::Procedure { procedure: next }
        && next.kind == ProcedureKind::Sid) {
        Err(
            (
                AppErrorKind::UnsupportedOperation,
                "replace the existing departure instead of inserting another"@,
            ),
        )
    } else {
        Ok(())
    }
}

/// What `departure_insertion_components` gives: its checks' error, or the components it lists.
pub open spec fn departure_insertion_outcome(
    plan: FlightPlan,
    airport_component_index: usize,
    procedure: ProcedureSegment,
    procedure_legs: Vec<ResolvedLeg>,
    r: Result<Vec<RebuiltRouteComponent>, AppError>,
) -> bool {
    match spec_departure_insertion(
        plan.route_components@,
        airport_component_index as int,
        procedure,
        procedure_legs@.len() > 0,
    ) {
        Ok(()) => r matches Ok(rs) && insertion_list(
            plan,
            1,
            RouteComponent::Procedure { procedure },
            Some(procedure_legs@),
            rs@,
        ),
        Err(e) => r matches Err(x) && error_of(x) == e,
    }
}

/// The components a departure insertion after the origin airport rebuilds
/// the route from, once it is checked: the departure goes right after the
/// airport.
pub fn departure_insertion_components(
    plan: &FlightPlan,
    airport_component_index: usize,
    procedure: ProcedureSegment,
    procedure_legs: Vec<ResolvedLeg>,
) -> (r: Result<Vec<RebuiltRouteComponent>, AppError>)
    ensures
        departure_insertion_outcome(*plan, airport_component_index, procedure, procedure_legs, r),
{
    if airport_component_index != 0 {
        let mut m = owned("departure insertion requires the first component, got ");
        push_decimal(&mut m, airport_component_index as u64);
        return Err(app_error(AppErrorKind::UnsupportedOperation, m));
    }
    if procedure.kind != ProcedureKind::Sid {
        return Err(
            app_error(AppErrorKind::InvalidFlightPlan, owned("departure insertion requires a SID procedure")),
        );
    }
    if procedure_legs.len() == 0 {
        return Err(
            app_error(
                AppErrorKind::InvalidFlightPlan,
                owned("departure procedure must contain at least one resolved leg"),
            ),
        );
    }
    let cs = &plan.route_components;
    if cs.len() == 0 {
        return Err(
            app_error(
                AppErrorKind::UnsupportedOperation,
                owned("departure insertion requires a flight-plan origin"),
            ),
        );
    }
    match &cs[0] {
        RouteComponent::Waypoint { waypoint } => {
            let matches_origin = match waypoint {
                NavRef::Airport(id) => str_eq(trim(id.as_str()), trim(procedure.airport_id.0.as_str())),
                _ => false,
            };
            if !matches_origin {
                return Err(
                    app_error(
                        AppErrorKind::InvalidFlightPlan,
                        owned("departure airport does not match the flight-plan origin"),
                    ),
                );
            }
        },
        _ => {
            return Err(
                app_error(
                    AppErrorKind::UnsupportedOperation,
                    owned("departure insertion target must be an airport waypoint"),
                ),
            );
        },
    }
    if cs.len() > 1 {
        match &cs[1] {
            RouteComponent::Procedure { procedure: next } => {
                if next.kind == ProcedureKind::Sid {
                    return Err(
                        app_error(
                            AppErrorKind::UnsupportedOperation,
                            owned("replace the existing departure instead of inserting another"),
                        ),
                    );
                }
            },
            _ => {},
        }
    }
    Ok(insertion_components(plan, 1, RouteComponent::Procedure { procedure }, Some(procedure_legs)))
}

/// Deleting component `c` keeps every component but `c` and the procedures
/// attached to it.
pub open spec fn deletion_list(p: FlightPlan, c: int, rs: Seq<RebuiltRouteComponent>) -> bool {
    let n = p.route_components.len() as int;
    let (first, last) = spec_endpoint_range(p.route_components@, c);
    &&& rs.len() == first + (n - last - 1)
    &&& kept_run(p, rs, 0, 0, first)
    &&& kept_run(p, rs, first, last + 1, n)
}

/// What `deletion_components` gives: its checks' error, or the components it lists.
pub open spec fn deletion_outcome(
    plan: FlightPlan,
    component_index: usize,
    r: Result<Vec<RebuiltRouteComponent>, AppError>,
) -> bool {
    if component_index < plan.route_components.len() {
        r matches Ok(rs) && deletion_list(plan, component_index as int, rs@)
    } else {
        r matches Err(x) && error_of(x) == index_fault(component_index as int)
    }
}

/// The components that deleting component `component_index` rebuilds the
/// route from: every other component, less the procedures attached to it.
pub fn deletion_components(plan: &FlightPlan, component_index: usize) -> (r: Result<
    Vec<RebuiltRouteComponent>,
    AppError,
>)
    ensures
        deletion_outcome(*plan, component_index, r),
{
    let n = plan.route_components.len();
    if component_index >= n {
        return Err(app_error(AppErrorKind::UnsupportedOperation, out_of_bounds_message(component_index)));
    }
    let (first, last) = endpoint_with_attached_procedures_range(plan, component_index);
    proof {
        reveal_spec_endpoint_range_bounds(plan.route_components@, component_index as int);
    }
    let grouped = grouped_component_legs(plan);
    let mut rs: Vec<RebuiltRouteComponent> = Vec::new();
    push_kept(plan, &grouped, 0, first, &mut rs);
    let ghost before = rs@;
    push_kept(plan, &grouped, last + 1, n, &mut rs);
    proof {
        assert forall|m: int| 0 <= m < first implies existing_component(
            *plan,
            m,
            #[trigger] rs@[m],
        ) by {
            assert(rs@[m] == before[m]);
        }
    }
    Ok(rs)
}

/// The range of components that go with component `c` lies in the route
/// and holds `c`.
proof fn reveal_spec_endpoint_range_bounds(cs: Seq<RouteComponent>, c: int)
    requires
        0 <= c < cs.len(),
    ensures
        0 <= spec_endpoint_range(cs, c).0 <= c <= spec_endpoint_range(cs, c).1 < cs.len(),
{
}

/// The checks of deleting a top-level waypoint: component `c` must be a
/// waypoint of the route.
pub open spec fn spec_waypoint_deletion(cs: Seq<RouteComponent>, c: int) -> Result<
    (),
    (AppErrorKind, Seq<char>),
> {
    if c >= cs.len() {
        Err(index_fault(c))
    } else if !(cs[c] is Waypoint) {
        Err(
            (
                AppErrorKind::UnsupportedOperation,
                "cannot delete inside a grouped route component directly; flatten or remove the whole component"@,
            ),
        )
    } else {
        Ok(())
    }
}

/// What `waypoint_deletion_components` gives: its checks' error, or the components it lists.
pub open spec fn waypoint_deletion_outcome(
    plan: FlightPlan,
    component_index: usize,
    r: Result<Vec<RebuiltRouteComponent>, AppError>,
) -> bool {
    match spec_waypoint_deletion(plan.route_components@, component_index as int) {
        Ok(()) => r matches Ok(rs) && deletion_list(plan, component_index as int, rs@),
        Err(e) => r matches Err(x) && error_of(x) == e,
    }
}

/// The components that deleting waypoint component `component_index`
/// rebuilds the route from.
pub fn waypoint_deletion_components(plan: &FlightPlan, component_index: usize) -> (r: Result<
    Vec<RebuiltRouteComponent>,
    AppError,
>)
    ensures
        waypoint_deletion_outcome(*plan, component_index, r),
{
    if component_index < plan.route_components.len() && !plan.route_components[component_index].is_waypoint() {
        return Err(
            app_error(
                AppErrorKind::UnsupportedOperation,
                owned(
                    "cannot delete inside a grouped route component directly; flatten or remove the whole component",
                ),
            ),
        );
    }
    deletion_components(plan, component_index)
}

/// What `remove_all_above_components` gives: its checks' error, or the components it lists.
pub open spec fn remove_all_above_outcome(
    plan: FlightPlan,
    component_index: usize,
    r: Result<Vec<RebuiltRouteComponent>, AppError>,
) -> bool {
    if component_index < plan.route_components.len() {
        r matches Ok(rs) && rs@.len() == plan.route_components.len() - component_index - 1
            && kept_run(
            plan,
            rs@,
            0,
            component_index + 1,
            plan.route_components.len() as int,
        )
    } else {
        r matches Err(x) && error_of(x) == index_fault(component_index as int)
    }
}

/// The components that removing everything above component
/// `component_index` rebuilds the route from: those after it.
pub fn remove_all_above_components(plan: &FlightPlan, component_index: usize) -> (r: Result<
    Vec<RebuiltRouteComponent>,
    AppError,
>)
    ensures
        remove_all_above_outcome(*plan, component_index, r),
{
    let n = plan.route_components.len();
    if component_index >= n {
        return Err(app_error(AppErrorKind::UnsupportedOperation, out_of_bounds_message(component_index)));
    }
    let grouped = grouped_component_legs(plan);
    let mut rs: Vec<RebuiltRouteComponent> = Vec::new();
    push_kept(plan, &grouped, component_index + 1, n, &mut rs);
    Ok(rs)
}

/// What `waypoint_insertion_components` gives: its checks' error, or the components it lists.
pub open spec fn waypoint_insertion_outcome(
    plan: FlightPlan,
    component_index: usize,
    before: bool,
    waypoint: NavRef,
    r: Result<Vec<RebuiltRouteComponent>, AppError>,
) -> bool {
    if component_index < plan.route_components.len() {
        r matches Ok(rs) && if before || component_index + 1 < plan.route_components.len() {
            insertion_list(
                plan,
                if before {
                    component_index as int
                } else {
                    component_index + 1
                },
                RouteComponent::Waypoint { waypoint },
                None,
                rs@,
            )
        } else {
            appended_list(plan, RouteComponent::Waypoint { waypoint }, None, rs@)
        }
    } else {
        r matches Err(x) && error_of(x) == index_fault(component_index as int)
    }
}

/// The components that inserting waypoint `waypoint` before or after
/// component `component_index` rebuilds the route from.
pub fn waypoint_insertion_components(
    plan: &FlightPlan,
    component_index: usize,
    before: bool,
    waypoint: NavRef,
) -> (r: Result<Vec<RebuiltRouteComponent>, AppError>)
    ensures
        waypoint_insertion_outcome(*plan, component_index, before, waypoint, r),
{
    let n = plan.route_components.len();
    if component_index >= n {
        return Err(app_error(AppErrorKind::UnsupportedOperation, out_of_bounds_message(component_index)));
    }
    let at = if before {
        component_index
    } else {
        component_index + 1
    };
    if at < n {
        Ok(insertion_components(plan, at, RouteComponent::Waypoint { waypoint }, None))
    } else {
        let grouped = grouped_component_legs(plan);
        let mut rs: Vec<RebuiltRouteComponent> = Vec::new();
        push_kept(plan, &grouped, 0, n, &mut rs);
        let ghost kept = rs@;
        rs.push(rebuilt_new_component(RouteComponent::Waypoint { waypoint }, None));
        proof {
            assert forall|m: int| 0 <= m < n implies existing_component(
                *plan,
                m,
                #[trigger] rs@[m],
            ) by {
                assert(rs@[m] == kept[m]);
            }
        }
        Ok(rs)
    }
}

/// The old indices of the components after component `c` moves to place
/// `t`.
pub open spec fn moved_indices(n: int, c: int, t: int) -> Seq<int> {
    Seq::new(n as nat, |i: int| i).remove(c).insert(t, c)
}

/// The checks of moving component `c` by `delta` places: nothing to do for
/// no move; `c` must be in the route, and so must the place it moves to.
pub open spec fn spec_move(cs: Seq<RouteComponent>, c: int, delta: int) -> Result<
    Option<int>,
    (AppErrorKind, Seq<char>),
> {
    if delta == 0 {
        Ok(None)
    } else if c >= cs.len() {
        Err(index_fault(c))
    } else if c + delta < 0 || c + delta >= cs.len() {
        Err(
            (
                AppErrorKind::UnsupportedOperation,
                "component move out of bounds: "@ + decimal(c as nat) + " -> "@ + signed_decimal(
                    c + delta,
                ),
            ),
        )
    } else {
        Ok(Some(c + delta))
    }
}

/// What `move_components` gives: its checks' error, or the components it lists.
pub open spec fn move_outcome(
    plan: FlightPlan,
    component_index: usize,
    delta: isize,
    r: Result<Option<Vec<RebuiltRouteComponent>>, AppError>,
) -> bool {
    match spec_move(plan.route_components@, component_index as int, delta as int) {
        Ok(None) => r matches Ok(None),
        Ok(Some(t)) => r matches Ok(Some(rs)) && rs@.len() == plan.route_components.len()
            && forall|m: int|
            0 <= m < rs@.len() ==> existing_component(
                plan,
                moved_indices(plan.route_components.len() as int, component_index as int, t)[m],
                #[trigger] rs@[m],
            ),
        Err(e) => r matches Err(x) && error_of(x) == e,
    }
}

/// The components that moving component `component_index` by `delta`
/// places rebuilds the route from; none when it does not move.
pub fn move_components(plan: &FlightPlan, component_index: usize, delta: isize) -> (r: Result<
    Option<Vec<RebuiltRouteComponent>>,
    AppError,
>)
    requires
        component_index < plan.route_components.len() ==> isize::MIN <= component_index + delta
            <= isize::MAX,
    ensures
        move_outcome(*plan, component_index, delta, r),
{
    if delta == 0 {
        return Ok(None);
    }
    let n = plan.route_components.len();
    if component_index >= n {
        return Err(app_error(AppErrorKind::UnsupportedOperation, out_of_bounds_message(component_index)));
    }
    let target: i128 = component_index as i128 + delta as i128;
    if target < 0 || target >= n as i128 {
        let mut message = owned("component move out of bounds: ");
        push_decimal(&mut message, component_index as u64);
        push_str(&mut message, " -> ");
        if target < 0 {
            push_str(&mut message, "-");
            push_decimal(&mut message, (-target) as u64);
            assert(message@ =~= "component move out of bounds: "@ + decimal(component_index as nat)
                + " -> "@ + signed_decimal(target as int));
        } else {
            push_decimal(&mut message, target as u64);
        }
        return Err(app_error(AppErrorKind::UnsupportedOperation, message));
    }
    let t = target as usize;
    let mut order: Vec<usize> = Vec::new();
    let mut i: usize = 0;
    while i < n
        invariant
            i <= n,
            order@.len() == i,
            forall|k: int| 0 <= k < i ==> order@[k] == k,
        decreases n - i,
    {
        order.push(i);
        i = i + 1;
    }
    let moved = order.remove(component_index);
    order.insert(t, moved);
    let ghost expected = moved_indices(n as int, component_index as int, t as int);
    assert(order@.len() == expected.len());
    assert forall|m: int| 0 <= m < n implies order@[m] as int == expected[m] by {
        assert(Seq::new(n as nat, |i: int| i)[component_index as int] == component_index);
    }
    let grouped = grouped_component_legs(plan);
    let mut rs: Vec<RebuiltRouteComponent> = Vec::new();
    let mut m: usize = 0;
    while m < n
        invariant
            m <= n,
            n == plan.route_components.len(),
            order@.len() == n,
            forall|k: int| 0 <= k < n ==> #[trigger] order@[k] < n,
            forall|k: int| 0 <= k < n ==> order@[k] as int == expected[k],
            grouped.len() == plan.route_components.len(),
            forall|c: int|
                0 <= c < grouped.len() ==> match #[trigger] grouped@[c] {
                    Some(v) => spec_grouped_legs(*plan, c) == Some(v@),
                    None => spec_grouped_legs(*plan, c) is None,
                },
            rs@.len() == m,
            forall|k: int| 0 <= k < m ==> existing_component(*plan, expected[k], #[trigger] rs@[k]),
        decreases n - m,
    {
        rs.push(rebuilt_existing_component(plan, &grouped, order[m]));
        m = m + 1;
    }
    Ok(Some(rs))
}

/// The checks of an airway appended after the waypoint at `s`: it must be a
/// waypoint, and the last component of the route.
pub open spec fn spec_airway_tail_insertion(cs: Seq<RouteComponent>, s: int) -> Result<
    (),
    (AppErrorKind, Seq<char>),
> {
    if s >= cs.len() {
        Err(index_fault(s))
    } else if !(cs[s] is Waypoint) {
        Err((AppErrorKind::UnsupportedOperation, "airway tail insertion start must be a waypoint component"@))
    } else if s + 1 != cs.len() {
        Err(
            (
                AppErrorKind::UnsupportedOperation,
                "airway tail insertion requires the selected waypoint to be the end of the route"@,
            ),
        )
    } else {
        Ok(())
    }
}

/// Every component up to the waypoint the airway is appended after stays,
/// that waypoint included. An airway that begins at that waypoint runs
/// between real waypoints: its exit follows it as a waypoint of its own,
/// which then ends the route and from which the route can go on. An airway
/// that begins elsewhere is reached by a direct leg and ends the route.
pub open spec fn airway_tail_list(
    p: FlightPlan,
    s: int,
    airway: AirwaySegment,
    legs: Seq<ResolvedLeg>,
    rs: Seq<RebuiltRouteComponent>,
) -> bool {
    let exit_follows = waypoint_is(p.route_components@, s, airway.entry);
    &&& rs.len() == if exit_follows {
        s + 3
    } else {
        s + 2
    }
    &&& kept_run(p, rs, 0, 0, s + 1)
    &&& new_component(RouteComponent::Airway { airway }, Some(legs), rs[s + 1])
    &&& exit_follows ==> new_component(
        RouteComponent::Waypoint { waypoint: airway.exit },
        None,
        rs[s + 2],
    )
}

/// What `airway_tail_insertion_components` gives: its checks' error, or the components it lists.
pub open spec fn airway_tail_insertion_outcome(
    plan: FlightPlan,
    start_component_index: usize,
    airway: AirwaySegment,
    airway_legs: Vec<ResolvedLeg>,
    r: Result<Vec<RebuiltRouteComponent>, AppError>,
) -> bool {
    match spec_airway_tail_insertion(plan.route_components@, start_component_index as int) {
        Ok(()) => r matches Ok(rs) && airway_tail_list(
            plan,
            start_component_index as int,
            airway,
            airway_legs@,
            rs@,
        ),
        Err(e) => r matches Err(x) && error_of(x) == e,
    }
}

/// The components that appending an airway after the route's last waypoint
/// rebuilds the route from, once it is checked.
pub fn airway_tail_insertion_components(
    plan: &FlightPlan,
    start_component_index: usize,
    airway: AirwaySegment,
    airway_legs: Vec<ResolvedLeg>,
) -> (r: Result<Vec<RebuiltRouteComponent>, AppError>)
    ensures
        airway_tail_insertion_outcome(*plan, start_component_index, airway, airway_legs, r),
{
    let cs = &plan.route_components;
    let s = start_component_index;
    if s >= cs.len() {
        return Err(app_error(AppErrorKind::UnsupportedOperation, out_of_bounds_message(s)));
    }
    if !cs[s].is_waypoint() {
        return Err(
            app_error(
                AppErrorKind::UnsupportedOperation,
                owned("airway tail insertion start must be a waypoint component"),
            ),
        );
    }
    if s + 1 != cs.len() {
        return Err(
            app_error(
                AppErrorKind::UnsupportedOperation,
                owned("airway tail insertion requires the selected waypoint to be the end of the route"),
            ),
        );
    }
    let keep_before = s + 1;
    let exit_follows = waypoint_at_is(cs, s, &airway.entry);
    let exit = airway.exit.duplicate();
    let grouped = grouped_component_legs(plan);
    let mut rs: Vec<RebuiltRouteComponent> = Vec::new();
    push_kept(plan, &grouped, 0, keep_before, &mut rs);
    let ghost before = rs@;
    rs.push(rebuilt_new_component(RouteComponent::Airway { airway }, Some(airway_legs)));
    if exit_follows {
        rs.push(rebuilt_new_component(RouteComponent::Waypoint { waypoint: exit }, None));
    }
    proof {
        assert forall|m: int| 0 <= m < keep_before implies existing_component(
            *plan,
            m,
            #[trigger] rs@[m],
        ) by {
            assert(rs@[m] == before[m]);
        }
    }
    Ok(rs)
}

/// The checks of an airway chained after the airway at `s`: it must be an
/// airway, the last component, and end where the new airway begins.
pub open spec fn spec_airway_chaining(cs: Seq<RouteComponent>, s: int, airway: AirwaySegment) -> Result<
    (),
    (AppErrorKind, Seq<char>),
> {
    if s >= cs.len() {
        Err(index_fault(s))
    } else {
        match cs[s] {
            RouteComponent::Airway { airway: existing } => if !same_nav_ref(existing.exit, airway.entry) {
                Err(
                    (
                        AppErrorKind::InvalidFlightPlan,
                        airway.name@ + " cannot start after "@ + spec_nav_ref_label(existing.exit),
                    ),
                )
            } else if s + 1 != cs.len() {
                Err(
                    (
                        AppErrorKind::UnsupportedOperation,
                        "airway chaining requires the selected airway to be the end of the route"@,
                    ),
                )
            } else {
                Ok(())
            },
            _ => Err((AppErrorKind::UnsupportedOperation, "airway chaining start must be an airway component"@)),
        }
    }
}

/// What `airway_chaining_components` gives: its checks' error, or the components it lists.
pub open spec fn airway_chaining_outcome(
    plan: FlightPlan,
    start_component_index: usize,
    airway: AirwaySegment,
    airway_legs: Vec<ResolvedLeg>,
    r: Result<Vec<RebuiltRouteComponent>, AppError>,
) -> bool {
    match spec_airway_chaining(plan.route_components@, start_component_index as int, airway) {
        Ok(()) => r matches Ok(rs) && appended_list(
            plan,
            RouteComponent::Airway { airway },
            Some(airway_legs@),
            rs@,
        ),
        Err(e) => r matches Err(x) && error_of(x) == e,
    }
}

/// The components that chaining an airway after the route's last airway
/// rebuilds the route from, once it is checked: every component, then the
/// new airway.
pub fn airway_chaining_components(
    plan: &FlightPlan,
    start_component_index: usize,
    airway: AirwaySegment,
    airway_legs: Vec<ResolvedLeg>,
) -> (r: Result<Vec<RebuiltRouteComponent>, AppError>)
    ensures
        airway_chaining_outcome(*plan, start_component_index, airway, airway_legs, r),
{
    let cs = &plan.route_components;
    let s = start_component_index;
    if s >= cs.len() {
        return Err(app_error(AppErrorKind::UnsupportedOperation, out_of_bounds_message(s)));
    }
    match &cs[s] {
        RouteComponent::Airway { airway: existing } => {
            if !nav_ref_eq(&existing.exit, &airway.entry) {
                let mut m = airway.name.clone();
                push_str(&mut m, " cannot start after ");
                let label = nav_ref_label(&existing.exit);
                push_str(&mut m, label.as_str());
                return Err(app_error(AppErrorKind::InvalidFlightPlan, m));
            }
        },
        _ => {
            return Err(
                app_error(
                    AppErrorKind::UnsupportedOperation,
                    owned("airway chaining start must be an airway component"),
                ),
            );
        },
    }
    if s + 1 != cs.len() {
        return Err(
            app_error(
                AppErrorKind::UnsupportedOperation,
                owned("airway chaining requires the selected airway to be the end of the route"),
            ),
        );
    }
    let n = cs.len();
    let grouped = grouped_component_legs(plan);
    let mut rs: Vec<RebuiltRouteComponent> = Vec::new();
    push_kept(plan, &grouped, 0, n, &mut rs);
    let ghost kept = rs@;
    rs.push(rebuilt_new_component(RouteComponent::Airway { airway }, Some(airway_legs)));
    proof {
        assert forall|m: int| 0 <= m < n implies existing_component(*plan, m, #[trigger] rs@[m]) by {
            assert(rs@[m] == kept[m]);
        }
    }
    Ok(rs)
}

/// The uid that old component `i` had, if any.
pub open spec fn uid_at(p: FlightPlan, i: int) -> Option<String> {
    if 0 <= i < p.route_component_uids.len() {
        Some(p.route_component_uids@[i])
    } else {
        None
    }
}

/// Component `c` is replaced by `component`, which keeps its uid and brings
/// `legs`; every other component is kept.
pub open spec fn replacement_list(
    p: FlightPlan,
    c: int,
    component: RouteComponent,
    legs: Seq<ResolvedLeg>,
    rs: Seq<RebuiltRouteComponent>,
) -> bool {
    let n = p.route_components.len() as int;
    &&& rs.len() == n
    &&& kept_run(p, rs, 0, 0, c)
    &&& rs[c].uid == uid_at(p, c)
    &&& same_component(rs[c].component, component)
    &&& rs[c].preserved_legs matches Some(v) && v@ == legs
    &&& kept_run(p, rs, c + 1, c + 1, n)
}

/// Replaces component `c` by `component`, which keeps its uid.
fn replacement_components(
    plan: &FlightPlan,
    c: usize,
    component: RouteComponent,
    legs: Vec<ResolvedLeg>,
) -> (rs: Vec<RebuiltRouteComponent>)
    requires
        c < plan.route_components.len(),
    ensures
        replacement_list(*plan, c as int, component, legs@, rs@),
{
    let n = plan.route_components.len();
    let grouped = grouped_component_legs(plan);
    let mut rs: Vec<RebuiltRouteComponent> = Vec::new();
    push_kept(plan, &grouped, 0, c, &mut rs);
    let ghost before = rs@;
    let uid = if c < plan.route_component_uids.len() {
        Some(plan.route_component_uids[c].clone())
    } else {
        None
    };
    let ghost component_view = component;
    let ghost legs_view = legs@;
    rs.push(RebuiltRouteComponent { uid, component, preserved_legs: Some(legs) });
    let ghost middle = rs@;
    push_kept(plan, &grouped, c + 1, n, &mut rs);
    proof {
        assert forall|m: int| 0 <= m < c implies existing_component(
            *plan,
            m,
            #[trigger] rs@[m],
        ) by {
            assert(rs@[m] == middle[m]);
            assert(middle[m] == before[m]);
        }
        assert(rs@[c as int] == middle[c as int]);
        assert(same_component(component_view, component_view));
    }
    rs
}

/// The checks of replacing component `c` by an airway or a procedure: `c`
/// must be in the route and of that kind, and the replacement must bring
/// legs.
pub open spec fn spec_replacement(cs: Seq<RouteComponent>, c: int, airway: bool, has_legs: bool) -> Result<
    (),
    (AppErrorKind, Seq<char>),
> {
    if c >= cs.len() {
        Err(index_fault(c))
    } else if airway && !(cs[c] is Airway) {
        Err((AppErrorKind::UnsupportedOperation, "target component is not an airway"@))
    } else if !airway && !(cs[c] is Procedure) {
        Err((AppErrorKind::UnsupportedOperation, "target component is not a procedure"@))
    } else if !has_legs {
        Err(
            (
                AppErrorKind::InvalidFlightPlan,
                if airway {
                    "replacement airway must contain at least one resolved leg"@
                } else {
                    "replacement procedure must contain at least one resolved leg"@
                },
            ),
        )
    } else {
        Ok(())
    }
}

fn check_replacement(plan: &FlightPlan, c: usize, airway: bool, has_legs: bool) -> (r: Result<
    (),
    AppError,
>)
    ensures
        match spec_replacement(plan.route_components@, c as int, airway, has_legs) {
            Ok(()) => r is Ok,
            Err(e) => r matches Err(x) && error_of(x) == e,
        },
{
    let cs = &plan.route_components;
    if c >= cs.len() {
        return Err(app_error(AppErrorKind::UnsupportedOperation, out_of_bounds_message(c)));
    }
    let is_airway = match &cs[c] {
        RouteComponent::Airway { .. } => true,
        _ => false,
    };
    let is_procedure = match &cs[c] {
        RouteComponent::Procedure { .. } => true,
        _ => false,
    };
    if airway && !is_airway {
        return Err(
            app_error(AppErrorKind::UnsupportedOperation, owned("target component is not an airway")),
        );
    }
    if !airway && !is_procedure {
        return Err(
            app_error(AppErrorKind::UnsupportedOperation, owned("target component is not a procedure")),
        );
    }
    if !has_legs {
        let message = if airway {
            owned("replacement airway must contain at least one resolved leg")
        } else {
            owned("replacement procedure must contain at least one resolved leg")
        };
        return Err(app_error(AppErrorKind::InvalidFlightPlan, message));
    }
    Ok(())
}

/// What `airway_replacement_components` gives: its checks' error, or the components it lists.
pub open spec fn airway_replacement_outcome(
    plan: FlightPlan,
    component_index: usize,
    airway: AirwaySegment,
    airway_legs: Vec<ResolvedLeg>,
    r: Result<Vec<RebuiltRouteComponent>, AppError>,
) -> bool {
    match spec_replacement(
        plan.route_components@,
        component_index as int,
        true,
        airway_legs@.len() > 0,
    ) {
        Ok(()) => r matches Ok(rs) && replacement_list(
            plan,
            component_index as int,
            RouteComponent::Airway { airway },
            airway_legs@,
            rs@,
        ),
        Err(e) => r matches Err(x) && error_of(x) == e,
    }
}

/// The components that replacing airway component `component_index`
/// rebuilds the route from, once it is checked.
pub fn airway_replacement_components(
    plan: &FlightPlan,
    component_index: usize,
    airway: AirwaySegment,
    airway_legs: Vec<ResolvedLeg>,
) -> (r: Result<Vec<RebuiltRouteComponent>, AppError>)
    ensures
        airway_replacement_outcome(*plan, component_index, airway, airway_legs, r),
{
    match check_replacement(plan, component_index, true, airway_legs.len() > 0) {
        Err(e) => {
            return Err(e);
        },
        Ok(()) => {},
    }
    Ok(replacement_components(plan, component_index, RouteComponent::Airway { airway }, airway_legs))
}

/// What `procedure_replacement_components` gives: its checks' error, or the components it lists.
pub open spec fn procedure_replacement_outcome(
    plan: FlightPlan,
    component_index: usize,
    procedure: ProcedureSegment,
    procedure_legs: Vec<ResolvedLeg>,
    r: Result<Vec<RebuiltRouteComponent>, AppError>,
) -> bool {
    match spec_replacement(
        plan.route_components@,
        component_index as int,
        false,
        procedure_legs@.len() > 0,
    ) {
        Ok(()) => r matches Ok(rs) && replacement_list(
            plan,
            component_index as int,
            RouteComponent::Procedure { procedure },
            procedure_legs@,
            rs@,
        ),
        Err(e) => r matches Err(x) && error_of(x) == e,
    }
}

/// The components that replacing procedure component `component_index`
/// rebuilds the route from, once it is checked.
pub fn procedure_replacement_components(
    plan: &FlightPlan,
    component_index: usize,
    procedure: ProcedureSegment,
    procedure_legs: Vec<ResolvedLeg>,
) -> (r: Result<Vec<RebuiltRouteComponent>, AppError>)
    ensures
        procedure_replacement_outcome(*plan, component_index, procedure, procedure_legs, r),
{
    match check_replacement(plan, component_index, false, procedure_legs.len() > 0) {
        Err(e) => {
            return Err(e);
        },
        Ok(()) => {},
    }
    Ok(
        replacement_components(
            plan,
            component_index,
            RouteComponent::Procedure { procedure },
            procedure_legs,
        ),
    )
}

/// The airway at component `c` with a new entry or exit.
pub open spec fn changed_airway(cs: Seq<RouteComponent>, c: int, n: NavRef, entry: bool) -> RouteComponent {
    match cs[c] {
        RouteComponent::Airway { airway } => RouteComponent::Airway {
            airway: if entry {
                AirwaySegment { entry: n, ..airway }
            } else {
                AirwaySegment { exit: n, ..airway }
            },
        },
        _ => cs[c],
    }
}

/// What `airway_endpoint_change_components` gives: its checks' error, or the components it lists.
pub open spec fn airway_endpoint_change_outcome(
    plan: FlightPlan,
    component_index: usize,
    nav_ref: NavRef,
    entry: bool,
    airway_legs: Vec<ResolvedLeg>,
    r: Result<Vec<RebuiltRouteComponent>, AppError>,
) -> bool {
    match spec_replacement(
        plan.route_components@,
        component_index as int,
        true,
        airway_legs@.len() > 0,
    ) {
        Ok(()) => r matches Ok(rs) && replacement_list(
            plan,
            component_index as int,
            changed_airway(plan.route_components@, component_index as int, nav_ref, entry),
            airway_legs@,
            rs@,
        ),
        Err(e) => r matches Err(x) && error_of(x) == e,
    }
}

/// The components that moving the entry (`entry`) or the exit of airway
/// component `component_index` to `nav_ref` rebuilds the route from, once it
/// is checked.
pub fn airway_endpoint_change_components(
    plan: &FlightPlan,
    component_index: usize,
    nav_ref: NavRef,
    entry: bool,
    airway_legs: Vec<ResolvedLeg>,
) -> (r: Result<Vec<RebuiltRouteComponent>, AppError>)
    ensures
        airway_endpoint_change_outcome(*plan, component_index, nav_ref, entry, airway_legs, r),
{
    match check_replacement(plan, component_index, true, airway_legs.len() > 0) {
        Err(e) => {
            return Err(e);
        },
        Ok(()) => {},
    }
    let mut airway = match &plan.route_components[component_index] {
        RouteComponent::Airway { airway } => airway.duplicate(),
        _ => {
            return Err(
                app_error(AppErrorKind::UnsupportedOperation, owned("target component is not an airway")),
            );
        },
    };
    if entry {
        airway.entry = nav_ref;
    } else {
        airway.exit = nav_ref;
    }
    Ok(replacement_components(plan, component_index, RouteComponent::Airway { airway }, airway_legs))
}

/// The procedure at component `c` with a new enroute (`enroute`) or runway
/// transition.
pub open spec fn changed_procedure(
    cs: Seq<RouteComponent>,
    c: int,
    transition: Option<String>,
    enroute: bool,
) -> RouteComponent {
    match cs[c] {
        RouteComponent::Procedure { procedure } => RouteComponent::Procedure {
            procedure: if enroute {
                ProcedureSegment { enroute_transition: transition, ..procedure }
            } else {
                ProcedureSegment { runway_transition: transition, ..procedure }
            },
        },
        _ => cs[c],
    }
}

/// What `procedure_transition_change_components` gives: its checks' error, or the components it lists.
pub open spec fn procedure_transition_change_outcome(
    plan: FlightPlan,
    component_index: usize,
    transition: Option<String>,
    enroute: bool,
    procedure_legs: Vec<ResolvedLeg>,
    r: Result<Vec<RebuiltRouteComponent>, AppError>,
) -> bool {
    match spec_replacement(
        plan.route_components@,
        component_index as int,
        false,
        procedure_legs@.len() > 0,
    ) {
        Ok(()) => r matches Ok(rs) && replacement_list(
            plan,
            component_index as int,
            changed_procedure(plan.route_components@, component_index as int, transition, enroute),
            procedure_legs@,
            rs@,
        ),
        Err(e) => r matches Err(x) && error_of(x) == e,
    }
}

/// The components that changing the enroute (`enroute`) or runway
/// transition of procedure component `component_index` rebuilds the route
/// from, once it is checked.
pub fn procedure_transition_change_components(
    plan: &FlightPlan,
    component_index: usize,
    transition: Option<String>,
    enroute: bool,
    procedure_legs: Vec<ResolvedLeg>,
) -> (r: Result<Vec<RebuiltRouteComponent>, AppError>)
    ensures
        procedure_transition_change_outcome(*plan, component_index, transition, enroute, procedure_legs, r),
{
    match check_replacement(plan, component_index, false, procedure_legs.len() > 0) {
        Err(e) => {
            return Err(e);
        },
        Ok(()) => {},
    }
    let mut procedure = match &plan.route_components[component_index] {
        RouteComponent::Procedure { procedure } => procedure.duplicate(),
        _ => {
            return Err(
                app_error(AppErrorKind::UnsupportedOperation, owned("target component is not a procedure")),
            );
        },
    };
    if enroute {
        procedure.enroute_transition = transition;
    } else {
        procedure.runway_transition = transition;
    }
    Ok(
        replacement_components(
            plan,
            component_index,
            RouteComponent::Procedure { procedure },
            procedure_legs,
        ),
    )
}

/// The checks of flattening component `c` into `count` waypoints: at least
/// two of them, for an airway or procedure of the route.
pub open spec fn spec_flattening(cs: Seq<RouteComponent>, c: int, count: int) -> Result<
    (),
    (AppErrorKind, Seq<char>),
> {
    if count < 2 {
        Err((AppErrorKind::UnsupportedOperation, "flattening requires at least two waypoints"@))
    } else if c >= cs.len() {
        Err(index_fault(c))
    } else if cs[c] is Waypoint {
        Err((AppErrorKind::UnsupportedOperation, "waypoint components are already explicit"@))
    } else {
        Ok(())
    }
}

/// Component `c` gives way to the new waypoints `waypoints`, in order.
pub open spec fn flattening_list(
    p: FlightPlan,
    c: int,
    waypoints: Seq<NavRef>,
    rs: Seq<RebuiltRouteComponent>,
) -> bool {
    let n = p.route_components.len() as int;
    let w = waypoints.len() as int;
    &&& rs.len() == n - 1 + w
    &&& kept_run(p, rs, 0, 0, c)
    &&& forall|k: int|
        0 <= k < w ==> new_component(
            RouteComponent::Waypoint { waypoint: waypoints[k] },
            None,
            #[trigger] rs[c + k],
        )
    &&& kept_run(p, rs, c + w, c + 1, n)
}

/// What `flattening_components` gives: its checks' error, or the components it lists.
pub open spec fn flattening_outcome(
    plan: FlightPlan,
    component_index: usize,
    waypoints: Vec<NavRef>,
    r: Result<Vec<RebuiltRouteComponent>, AppError>,
) -> bool {
    match spec_flattening(
        plan.route_components@,
        component_index as int,
        waypoints@.len() as int,
    ) {
        Ok(()) => r matches Ok(rs) && flattening_list(
            plan,
            component_index as int,
            waypoints@,
            rs@,
        ),
        Err(e) => r matches Err(x) && error_of(x) == e,
    }
}

/// The components that flattening component `component_index` into the
/// waypoints it passes rebuilds the route from, once it is checked.
pub fn flattening_components(plan: &FlightPlan, component_index: usize, waypoints: Vec<NavRef>) -> (r:
    Result<Vec<RebuiltRouteComponent>, AppError>)
    ensures
        flattening_outcome(*plan, component_index, waypoints, r),
{
    if waypoints.len() < 2 {
        return Err(
            app_error(AppErrorKind::UnsupportedOperation, owned("flattening requires at least two waypoints")),
        );
    }
    let n = plan.route_components.len();
    let c = component_index;
    if c >= n {
        return Err(app_error(AppErrorKind::UnsupportedOperation, out_of_bounds_message(c)));
    }
    if plan.route_components[c].is_waypoint() {
        return Err(
            app_error(AppErrorKind::UnsupportedOperation, owned("waypoint components are already explicit")),
        );
    }
    let grouped = grouped_component_legs(plan);
    let mut rs: Vec<RebuiltRouteComponent> = Vec::new();
    push_kept(plan, &grouped, 0, c, &mut rs);
    let ghost before = rs@;
    let mut k: usize = 0;
    while k < waypoints.len()
        invariant
            c < n == plan.route_components.len(),
            k <= waypoints@.len(),
            rs@.len() == c + k,
            rs@.take(c as int) == before,
            before.len() == c,
            forall|j: int|
                0 <= j < k ==> new_component(
                    RouteComponent::Waypoint { waypoint: waypoints@[j] },
                    None,
                    #[trigger] rs@[c + j],
                ),
        decreases waypoints@.len() - k,
    {
        let ghost prev = rs@;
        rs.push(rebuilt_new_component(RouteComponent::Waypoint { waypoint: waypoints[k].duplicate() }, None));
        assert(rs@.take(c as int) =~= prev.take(c as int));
        k = k + 1;
    }
    let ghost middle = rs@;
    push_kept(plan, &grouped, c + 1, n, &mut rs);
    proof {
        assert forall|m: int| 0 <= m < c implies existing_component(*plan, m, #[trigger] rs@[m]) by {
            assert(rs@[m] == middle[m]);
            assert(middle.take(c as int)[m] == middle[m]);
        }
        assert forall|j: int| 0 <= j < waypoints@.len() implies new_component(
            RouteComponent::Waypoint { waypoint: waypoints@[j] },
            None,
            #[trigger] rs@[c + j],
        ) by {
            assert(rs@[c + j] == middle[c + j]);
        }
    }
    Ok(rs)
}

/// The points an airway component passes: where its first kept leg starts
/// and where each ends; without kept legs, its entry and, when it differs,
/// its exit.
pub open spec fn spec_airway_points(airway: AirwaySegment, legs: Seq<ResolvedLeg>) -> Seq<NavRef> {
    if legs.len() > 0 {
        seq![legs[0].from] + legs.map_values(|l: ResolvedLeg| l.to)
    } else if same_nav_ref(airway.exit, airway.entry) {
        seq![airway.entry]
    } else {
        seq![airway.entry, airway.exit]
    }
}

/// The checks of reading airway component `c`: it must be in the route and
/// be an airway.
pub open spec fn spec_airway_at(cs: Seq<RouteComponent>, c: int) -> Result<
    AirwaySegment,
    (AppErrorKind, Seq<char>),
> {
    if c >= cs.len() {
        Err(index_fault(c))
    } else {
        match cs[c] {
            RouteComponent::Airway { airway } => Ok(airway),
            _ => Err((AppErrorKind::UnsupportedOperation, "target component is not an airway"@)),
        }
    }
}

/// Airway component `component_index`, the points it passes, and the legs
/// it keeps.
pub fn airway_points_and_legs(plan: &FlightPlan, component_index: usize) -> (r: Result<
    (AirwaySegment, Vec<NavRef>, Vec<ResolvedLeg>),
    AppError,
>)
    ensures
        match spec_airway_at(plan.route_components@, component_index as int) {
            Ok(airway) => r matches Ok(v) && v.0 == airway && v.2@ == kept_legs(
                *plan,
                component_index as int,
            ) && v.1@ == spec_airway_points(airway, v.2@),
            Err(e) => r matches Err(x) && error_of(x) == e,
        },
{
    let cs = &plan.route_components;
    let c = component_index;
    if c >= cs.len() {
        return Err(app_error(AppErrorKind::UnsupportedOperation, out_of_bounds_message(c)));
    }
    let airway = match &cs[c] {
        RouteComponent::Airway { airway } => airway.duplicate(),
        _ => {
            return Err(
                app_error(AppErrorKind::UnsupportedOperation, owned("target component is not an airway")),
            );
        },
    };
    let grouped = grouped_component_legs(plan);
    let legs = match &grouped[c] {
        Some(v) => {
            let mut copy: Vec<ResolvedLeg> = Vec::new();
            let mut k: usize = 0;
            while k < v.len()
                invariant
                    k <= v@.len(),
                    copy@ == v@.take(k as int),
                decreases v@.len() - k,
            {
                copy.push(v[k].duplicate());
                assert(v@.take(k + 1) =~= v@.take(k as int).push(v@[k as int]));
                k = k + 1;
            }
            assert(v@.take(v@.len() as int) =~= v@);
            copy
        },
        None => Vec::new(),
    };
    proof {
        assert(grouped@[c as int] == grouped@[c as int]);
    }
    let mut points: Vec<NavRef> = Vec::new();
    if legs.len() > 0 {
        points.push(legs[0].from.duplicate());
        let mut k: usize = 0;
        while k < legs.len()
            invariant
                legs@.len() > 0,
                k <= legs@.len(),
                points@ == seq![legs@[0].from] + legs@.take(k as int).map_values(
                    |l: ResolvedLeg| l.to,
                ),
            decreases legs@.len() - k,
        {
            points.push(legs[k].to.duplicate());
            assert(legs@.take(k + 1).map_values(|l: ResolvedLeg| l.to) =~= legs@.take(
                k as int,
            ).map_values(|l: ResolvedLeg| l.to).push(legs@[k as int].to));
            k = k + 1;
        }
        assert(legs@.take(legs@.len() as int) =~= legs@);
    } else {
        points.push(airway.entry.duplicate());
        if !nav_ref_eq(&airway.exit, &airway.entry) {
            points.push(airway.exit.duplicate());
        }
    }
    Ok((airway, points, legs))
}

/// What replaces an airway reduced to `points` and `legs`: nothing when no
/// point is left, or when the one left is the waypoint that follows; that
/// waypoint alone when one is left; else the airway from the first point to
/// the last, keeping `legs`.
pub open spec fn spec_airway_remainder(
    airway: AirwaySegment,
    points: Seq<NavRef>,
    legs: Seq<ResolvedLeg>,
    following_waypoint: Option<NavRef>,
) -> Option<(RouteComponent, Option<Seq<ResolvedLeg>>)> {
    if points.len() == 0 {
        None
    } else if points.len() == 1 {
        if following_waypoint matches Some(f) && same_nav_ref(f, points[0]) {
            None
        } else {
            Some((RouteComponent::Waypoint { waypoint: points[0] }, None))
        }
    } else {
        Some(
            (
                RouteComponent::Airway {
                    airway: AirwaySegment { entry: points[0], exit: points.last(), ..airway },
                },
                Some(legs),
            ),
        )
    }
}

/// A replacement as plain values.
pub open spec fn replacement_view(r: Option<(RouteComponent, Option<Vec<ResolvedLeg>>)>) -> Option<
    (RouteComponent, Option<Seq<ResolvedLeg>>),
> {
    match r {
        Some((c, Some(v))) => Some((c, Some(v@))),
        Some((c, None)) => Some((c, None)),
        None => None,
    }
}

/// What replaces an airway reduced to `remaining_points`.
pub fn airway_replacement_from_remaining_points(
    airway: AirwaySegment,
    remaining_points: Vec<NavRef>,
    remaining_legs: Vec<ResolvedLeg>,
    following_waypoint: Option<NavRef>,
) -> (r: Option<(RouteComponent, Option<Vec<ResolvedLeg>>)>)
    ensures
        replacement_view(r) == spec_airway_remainder(
            airway,
            remaining_points@,
            remaining_legs@,
            following_waypoint,
        ),
{
    let n = remaining_points.len();
    if n == 0 {
        return None;
    }
    if n == 1 {
        let single = &remaining_points[0];
        let follows = match &following_waypoint {
            Some(f) => nav_ref_eq(f, single),
            None => false,
        };
        if follows {
            return None;
        }
        return Some((RouteComponent::Waypoint { waypoint: single.duplicate() }, None));
    }
    let mut replaced = airway;
    replaced.entry = remaining_points[0].duplicate();
    replaced.exit = remaining_points[n - 1].duplicate();
    Some((RouteComponent::Airway { airway: replaced }, Some(remaining_legs)))
}

/// From `start` on (all components, or from `c` when the ones before it are
/// dropped), every component is kept but `c`, which gives way to the
/// replacement under its own uid, or goes when there is none.
pub open spec fn airway_replacement_list(
    p: FlightPlan,
    c: int,
    replacement: Option<(RouteComponent, Option<Seq<ResolvedLeg>>)>,
    start: int,
    rs: Seq<RebuiltRouteComponent>,
) -> bool {
    let n = p.route_components.len() as int;
    match replacement {
        Some((component, legs)) => {
            &&& rs.len() == n - start
            &&& kept_run(p, rs, 0, start, c)
            &&& rs[c - start].uid == uid_at(p, c)
            &&& rs[c - start].component == component
            &&& match rs[c - start].preserved_legs {
                Some(v) => legs == Some(v@),
                None => legs is None,
            }
            &&& kept_run(p, rs, c - start + 1, c + 1, n)
        },
        None => {
            &&& rs.len() == n - start - 1
            &&& kept_run(p, rs, 0, start, c)
            &&& kept_run(p, rs, c - start, c + 1, n)
        },
    }
}

/// The components that replacing airway component `component_index` by
/// `replacement` rebuilds the route from.
pub fn airway_replacement_rebuild_components(
    plan: &FlightPlan,
    component_index: usize,
    replacement: Option<(RouteComponent, Option<Vec<ResolvedLeg>>)>,
    drop_before_target: bool,
) -> (r: Result<Vec<RebuiltRouteComponent>, AppError>)
    ensures
        if component_index < plan.route_components.len() {
            r matches Ok(rs) && airway_replacement_list(
                *plan,
                component_index as int,
                replacement_view(replacement),
                if drop_before_target {
                    component_index as int
                } else {
                    0
                },
                rs@,
            )
        } else {
            r matches Err(x) && error_of(x) == index_fault(component_index as int)
        },
{
    let n = plan.route_components.len();
    let c = component_index;
    if c >= n {
        return Err(app_error(AppErrorKind::UnsupportedOperation, out_of_bounds_message(c)));
    }
    let start = if drop_before_target {
        c
    } else {
        0
    };
    let grouped = grouped_component_legs(plan);
    let mut rs: Vec<RebuiltRouteComponent> = Vec::new();
    push_kept(plan, &grouped, start, c, &mut rs);
    let ghost before = rs@;
    let ghost wanted = replacement_view(replacement);
    match replacement {
        Some((component, legs)) => {
            let uid = if c < plan.route_component_uids.len() {
                Some(plan.route_component_uids[c].clone())
            } else {
                None
            };
            rs.push(RebuiltRouteComponent { uid, component, preserved_legs: legs });
        },
        None => {},
    }
    let ghost middle = rs@;
    push_kept(plan, &grouped, c + 1, n, &mut rs);
    proof {
        assert forall|m: int| 0 <= m < c - start implies existing_component(
            *plan,
            m - 0 + start,
            #[trigger] rs@[m],
        ) by {
            assert(rs@[m] == middle[m]);
            assert(middle[m] == before[m]);
        }
        if wanted is Some {
            assert(rs@[c - start] == middle[c - start]);
        }
    }
    Ok(rs)
}

/// The first place among `points`, from `i` on, that is `n`.
pub open spec fn first_point_of(points: Seq<NavRef>, n: NavRef, i: int) -> Option<int>
    decreases points.len() - i,
{
    if i < 0 || i >= points.len() {
        None
    } else if same_nav_ref(points[i], n) {
        Some(i)
    } else {
        first_point_of(points, n, i + 1)
    }
}

/// The legs from `lo` on, none when `lo` is past their end.
pub open spec fn legs_from(legs: Seq<ResolvedLeg>, lo: int) -> Seq<ResolvedLeg> {
    if lo <= legs.len() {
        legs.subrange(lo, legs.len() as int)
    } else {
        Seq::empty()
    }
}

/// The first `hi` legs, none when there are fewer.
pub open spec fn legs_upto(legs: Seq<ResolvedLeg>, hi: int) -> Seq<ResolvedLeg> {
    if hi <= legs.len() {
        legs.subrange(0, hi)
    } else {
        Seq::empty()
    }
}

/// Where a listed point of an airway opens the visible list: past the first
/// point when the waypoint before the airway is that point.
pub open spec fn first_visible(points: Seq<NavRef>, preceding: Option<NavRef>) -> int {
    if points.len() > 1 && (preceding matches Some(p) && same_nav_ref(p, points[0])) {
        1
    } else {
        0
    }
}

/// Where the visible list of an airway closes: before the last point when
/// the waypoint after the airway is that point.
pub open spec fn last_visible(points: Seq<NavRef>, following: Option<NavRef>) -> int {
    let last = if points.len() > 0 {
        points.len() - 1
    } else {
        0
    };
    if points.len() > 1 && (following matches Some(f) && same_nav_ref(f, points.last())) {
        if last > 0 {
            last - 1
        } else {
            0
        }
    } else {
        last
    }
}

/// Removing waypoint `n` from airway component `c`: it must be a visible end
/// of the airway's list; what is left of the airway replaces it.
pub open spec fn spec_child_removal(p: FlightPlan, c: int, n: NavRef) -> Result<
    Option<(RouteComponent, Option<Seq<ResolvedLeg>>)>,
    (AppErrorKind, Seq<char>),
> {
    let cs = p.route_components@;
    match spec_airway_at(cs, c) {
        Err(e) => Err(e),
        Ok(airway) => {
            let legs = kept_legs(p, c);
            let points = spec_airway_points(airway, legs);
            let following = spec_adjacent_waypoint(cs, c, 1);
            let first = first_visible(points, spec_adjacent_waypoint(cs, c, -1));
            let last = last_visible(points, following);
            match first_point_of(points, n, 0) {
                None => Err(
                    (
                        AppErrorKind::InvalidFlightPlan,
                        "airway child waypoint is not in component: "@ + spec_nav_ref_label(n),
                    ),
                ),
                Some(i) => if i != first && i != last {
                    Err((AppErrorKind::UnsupportedOperation, AIRWAY_ENDPOINT_REMOVE_DISABLED_REASON@))
                } else if i == first {
                    Ok(
                        spec_airway_remainder(
                            airway,
                            points.subrange(i + 1, points.len() as int),
                            legs_from(legs, i + 1),
                            following,
                        ),
                    )
                } else {
                    Ok(
                        spec_airway_remainder(
                            airway,
                            points.subrange(0, i),
                            legs_upto(
                                legs,
                                if i >= 1 {
                                    i - 1
                                } else {
                                    0
                                },
                            ),
                            following,
                        ),
                    )
                },
            }
        },
    }
}

fn nav_refs_between(v: &Vec<NavRef>, lo: usize, hi: usize) -> (r: Vec<NavRef>)
    requires
        lo <= hi <= v@.len(),
    ensures
        r@ == v@.subrange(lo as int, hi as int),
{
    let mut r: Vec<NavRef> = Vec::new();
    let mut k: usize = lo;
    while k < hi
        invariant
            lo <= k <= hi <= v@.len(),
            r@ == v@.subrange(lo as int, k as int),
        decreases hi - k,
    {
        r.push(v[k].duplicate());
        assert(v@.subrange(lo as int, k + 1) =~= v@.subrange(lo as int, k as int).push(v@[k as int]));
        k = k + 1;
    }
    r
}

fn legs_between(v: &Vec<ResolvedLeg>, lo: usize, hi: usize) -> (r: Vec<ResolvedLeg>)
    requires
        lo <= hi <= v@.len(),
    ensures
        r@ == v@.subrange(lo as int, hi as int),
{
    let mut r: Vec<ResolvedLeg> = Vec::new();
    let mut k: usize = lo;
    while k < hi
        invariant
            lo <= k <= hi <= v@.len(),
            r@ == v@.subrange(lo as int, k as int),
        decreases hi - k,
    {
        r.push(v[k].duplicate());
        assert(v@.subrange(lo as int, k + 1) =~= v@.subrange(lo as int, k as int).push(v@[k as int]));
        k = k + 1;
    }
    r
}

fn find_point(points: &Vec<NavRef>, n: &NavRef) -> (r: Option<usize>)
    ensures
        r == match first_point_of(points@, *n, 0) {
            Some(i) => Some(i as usize),
            None => None,
        },
        first_point_of(points@, *n, 0) matches Some(i) ==> 0 <= i < points@.len(),
{
    let mut i: usize = 0;
    proof {
        lemma_first_point_range(points@, *n, 0);
    }
    while i < points.len()
        invariant
            i <= points@.len(),
            first_point_of(points@, *n, 0) matches Some(k) ==> i <= k < points@.len(),
            first_point_of(points@, *n, 0) == first_point_of(points@, *n, i as int),
        decreases points@.len() - i,
    {
        if nav_ref_eq(&points[i], n) {
            return Some(i);
        }
        proof {
            lemma_first_point_range(points@, *n, i + 1);
        }
        i = i + 1;
    }
    None
}

proof fn lemma_first_point_range(points: Seq<NavRef>, n: NavRef, i: int)
    ensures
        first_point_of(points, n, i) matches Some(k) ==> 0 <= i <= k < points.len(),
    decreases points.len() - i,
{
    if 0 <= i < points.len() {
        lemma_first_point_range(points, n, i + 1);
    }
}

/// What `airway_child_removal_components` gives: its checks' error, or the components it lists.
pub open spec fn airway_child_removal_outcome(
    plan: FlightPlan,
    component_index: usize,
    nav_ref: NavRef,
    r: Result<Vec<RebuiltRouteComponent>, AppError>,
) -> bool {
    match spec_child_removal(plan, component_index as int, nav_ref) {
        Ok(replacement) => r matches Ok(rs) && airway_replacement_list(
            plan,
            component_index as int,
            replacement,
            0,
            rs@,
        ),
        Err(e) => r matches Err(x) && error_of(x) == e,
    }
}

/// The components that removing waypoint `nav_ref` from airway component
/// `component_index` rebuilds the route from, once it is checked: what is
/// left of the airway takes its place.
pub fn airway_child_removal_components(
    plan: &FlightPlan,
    component_index: usize,
    nav_ref: &NavRef,
) -> (r: Result<Vec<RebuiltRouteComponent>, AppError>)
    ensures
        airway_child_removal_outcome(*plan, component_index, *nav_ref, r),
{
    let (airway, points, legs) = match airway_points_and_legs(plan, component_index) {
        Ok(v) => v,
        Err(e) => {
            return Err(e);
        },
    };
    let point_index = match find_point(&points, nav_ref) {
        Some(i) => i,
        None => {
            let mut m = owned("airway child waypoint is not in component: ");
            let label = nav_ref_label(nav_ref);
            push_str(&mut m, label.as_str());
            return Err(app_error(AppErrorKind::InvalidFlightPlan, m));
        },
    };
    let count = points.len();
    let preceding = adjacent_waypoint_component(plan.route_components.as_slice(), component_index, -1);
    let following = adjacent_waypoint_component(plan.route_components.as_slice(), component_index, 1);
    let first = if count > 1 && match &preceding {
        Some(p) => nav_ref_eq(p, &points[0]),
        None => false,
    } {
        1
    } else {
        0
    };
    let last_index = count - 1;
    let last = if count > 1 && match &following {
        Some(f) => nav_ref_eq(f, &points[count - 1]),
        None => false,
    } {
        if last_index > 0 {
            last_index - 1
        } else {
            0
        }
    } else {
        last_index
    };
    if point_index != first && point_index != last {
        return Err(
            app_error(AppErrorKind::UnsupportedOperation, owned(AIRWAY_ENDPOINT_REMOVE_DISABLED_REASON)),
        );
    }
    let (remaining_points, remaining_legs) = if point_index == first {
        let rest = nav_refs_between(&points, point_index + 1, count);
        let rest_legs = if point_index + 1 <= legs.len() {
            legs_between(&legs, point_index + 1, legs.len())
        } else {
            Vec::new()
        };
        (rest, rest_legs)
    } else {
        let rest = nav_refs_between(&points, 0, point_index);
        let upto = if point_index >= 1 {
            point_index - 1
        } else {
            0
        };
        let rest_legs = if upto <= legs.len() {
            legs_between(&legs, 0, upto)
        } else {
            Vec::new()
        };
        (rest, rest_legs)
    };
    let replacement = airway_replacement_from_remaining_points(
        airway,
        remaining_points,
        remaining_legs,
        following,
    );
    airway_replacement_rebuild_components(plan, component_index, replacement, false)
}

/// Making explicit the exit of an airway just before component `c`: an
/// error when `c` has no predecessor; nothing to do when the predecessor is
/// not an airway or `c` is already its exit waypoint; else the exit to
/// insert after the airway.
pub open spec fn spec_exit_materialization(cs: Seq<RouteComponent>, c: int) -> Result<
    Option<NavRef>,
    (AppErrorKind, Seq<char>),
> {
    if c == 0 {
        Err((AppErrorKind::UnsupportedOperation, "target component has no predecessor"@))
    } else if c - 1 >= cs.len() {
        Ok(None)
    } else {
        match cs[c - 1] {
            RouteComponent::Airway { airway } => if c < cs.len() && waypoint_is(cs, c, airway.exit) {
                Ok(None)
            } else {
                Ok(Some(airway.exit))
            },
            _ => Ok(None),
        }
    }
}

/// What `airway_exit_materialization_components` gives: its checks' error, or the components it lists.
pub open spec fn airway_exit_materialization_outcome(
    plan: FlightPlan,
    component_index: usize,
    r: Result<Option<Vec<RebuiltRouteComponent>>, AppError>,
) -> bool {
    match spec_exit_materialization(plan.route_components@, component_index as int) {
        Ok(None) => r matches Ok(None),
        Ok(Some(exit)) => r matches Ok(Some(rs)) && if component_index
            < plan.route_components.len() {
            insertion_list(
                plan,
                component_index as int,
                RouteComponent::Waypoint { waypoint: exit },
                None,
                rs@,
            )
        } else {
            appended_list(plan, RouteComponent::Waypoint { waypoint: exit }, None, rs@)
        },
        Err(e) => r matches Err(x) && error_of(x) == e,
    }
}

/// The components that making explicit the exit of the airway before
/// component `component_index` rebuilds the route from; none when there is
/// nothing to do. After the rebuild the component is one place further on.
pub fn airway_exit_materialization_components(plan: &FlightPlan, component_index: usize) -> (r:
    Result<Option<Vec<RebuiltRouteComponent>>, AppError>)
    ensures
        airway_exit_materialization_outcome(*plan, component_index, r),
{
    if component_index == 0 {
        return Err(
            app_error(AppErrorKind::UnsupportedOperation, owned("target component has no predecessor")),
        );
    }
    let previous = component_index - 1;
    let cs = &plan.route_components;
    if previous >= cs.len() {
        return Ok(None);
    }
    let exit = match &cs[previous] {
        RouteComponent::Airway { airway } => {
            if component_index < cs.len() && waypoint_at_is(cs, component_index, &airway.exit) {
                return Ok(None);
            }
            airway.exit.duplicate()
        },
        _ => {
            return Ok(None);
        },
    };
    match waypoint_insertion_components(plan, previous, false, exit) {
        Ok(rs) => Ok(Some(rs)),
        Err(e) => Err(e),
    }
}

/// An airport id as the route stores it: trimmed, in ASCII capitals.
pub open spec fn normalized_airport_id(id: Seq<char>) -> Seq<char> {
    trimmed(id).map_values(|c: char| ascii_upper(c))
}

/// The reference names the airport `id`.
pub open spec fn airport_named(w: NavRef, id: Seq<char>) -> bool {
    w matches NavRef::Airport(x) && x@ == id
}

/// What `airport_waypoint_insertion_components` gives: its checks' error, or the components it lists.
pub open spec fn airport_waypoint_insertion_outcome(
    plan: FlightPlan,
    component_index: usize,
    before: bool,
    airport_id: &str,
    r: Result<Vec<RebuiltRouteComponent>, AppError>,
) -> bool {
    if normalized_airport_id(airport_id@).len() == 0 {
        r matches Err(x) && error_of(x) == (AppErrorKind::InvalidFlightPlan, "airport id is required"@)
    } else if component_index >= plan.route_components.len() {
        r matches Err(x) && error_of(x) == index_fault(component_index as int)
    } else {
        r matches Ok(rs) && exists|w: NavRef|
            #[trigger] airport_named(w, normalized_airport_id(airport_id@)) && if before
                || component_index + 1 < plan.route_components.len() {
                insertion_list(
                    plan,
                    if before {
                        component_index as int
                    } else {
                        component_index + 1
                    },
                    RouteComponent::Waypoint { waypoint: w },
                    None,
                    rs@,
                )
            } else {
                appended_list(plan, RouteComponent::Waypoint { waypoint: w }, None, rs@)
            }
    }
}

/// The components that inserting the airport `airport_id` before or after
/// component `component_index` rebuilds the route from: the id must not be
/// blank, and is stored trimmed and in capitals.
pub fn airport_waypoint_insertion_components(
    plan: &FlightPlan,
    component_index: usize,
    before: bool,
    airport_id: &str,
) -> (r: Result<Vec<RebuiltRouteComponent>, AppError>)
    ensures
        airport_waypoint_insertion_outcome(*plan, component_index, before, airport_id, r),
{
    let id = to_ascii_uppercase(trim(airport_id));
    if id.unicode_len() == 0 {
        return Err(app_error(AppErrorKind::InvalidFlightPlan, owned("airport id is required")));
    }
    let waypoint = NavRef::Airport(id);
    let ghost w = waypoint;
    let r = waypoint_insertion_components(plan, component_index, before, waypoint);
    assert(airport_named(w, normalized_airport_id(airport_id@)));
    r
}

/// Moving a component to another place and then moving it back restores the
/// order of the route.
pub proof fn law_moving_back_restores_order(n: int, c: int, t: int)
    requires
        0 <= c < n,
        0 <= t < n,
    ensures
        ({
            let moved = moved_indices(n, c, t);
            moved.remove(t).insert(c, moved[t])
        }) == Seq::new(n as nat, |i: int| i),
{
    let ids = Seq::new(n as nat, |i: int| i);
    let moved = moved_indices(n, c, t);
    assert(moved[t] == c);
    assert(moved.remove(t) =~= ids.remove(c));
    assert(ids.remove(c).insert(c, c) =~= ids);
}

} // verus!
