//! The route components as the flight-plan view sees them: what each one is
//! called, what it lists, and which edits it is open to.
use crate::attachment::{
    can_insert_procedure_before_component, replaceable_procedure_component_before,
    spec_can_insert_procedure_before, spec_move_check, spec_replaceable_procedure_before,
    validate_component_move_attachments,
};
use crate::flight_plan::{FlightPlan, ResolvedLeg};
use crate::items::{
    deduped_upto, dedupe_component_items_for_projection, item_views, lists_view, raw_items_of,
    spec_projected_items, spec_raw_items, NavItemView,
};
use crate::nav::NavRef;
use crate::projection::{airport_chart_of, opt_index, project_display_rows, spec_display_rows};
use crate::rebuild::{grouped_at, grouped_component_legs, spec_grouped_legs};
use crate::route::{
    adjacent_waypoint_component, component_chart_airport_id, component_procedure_id,
    component_procedure_kind, component_summary, component_view_kind, spec_adjacent_waypoint,
    spec_component_summary, spec_view_kind, RouteComponent,
};
use crate::rows::{FlightPlanDisplayRowUiView, RouteComponentUiView};
use vstd::prelude::*;

verus! {

/// Component `c` can move `direction` places: it exists, the route has more
/// than one component, the place it would move to exists, and procedures
/// stay attached after the move.
pub open spec fn spec_can_reorder(cs: Seq<RouteComponent>, c: int, direction: int) -> bool {
    &&& 0 <= c < cs.len()
    &&& cs.len() > 1
    &&& 0 <= c + direction < cs.len()
    &&& spec_move_check(cs, c, direction) is Ok
}

/// Whether component `component_index` can move `direction` places.
pub fn can_reorder_component_in_direction(
    plan: &FlightPlan,
    component_index: usize,
    direction: isize,
) -> (r: bool)
    requires
        plan.route_components.len() <= isize::MAX,
    ensures
        r == spec_can_reorder(plan.route_components@, component_index as int, direction as int),
{
    let n = plan.route_components.len();
    if component_index >= n || n <= 1 {
        return false;
    }
    let target = component_index as i128 + direction as i128;
    if target < 0 || target >= n as i128 {
        return false;
    }
    validate_component_move_attachments(plan, component_index, direction).is_ok()
}

/// Whether component `component_index` can move up or down.
pub fn can_reorder_component(plan: &FlightPlan, component_index: usize) -> (r: bool)
    requires
        plan.route_components.len() <= isize::MAX,
    ensures
        r == (spec_can_reorder(plan.route_components@, component_index as int, -1)
            || spec_can_reorder(plan.route_components@, component_index as int, 1)),
{
    can_reorder_component_in_direction(plan, component_index, -1)
        || can_reorder_component_in_direction(plan, component_index, 1)
}

/// The legs that component `c` keeps, none when it keeps none.
pub open spec fn kept_legs(p: FlightPlan, c: int) -> Seq<ResolvedLeg> {
    match spec_grouped_legs(p, c) {
        Some(legs) => legs,
        None => Seq::empty(),
    }
}

/// What each component of the plan lists in the view, once each waypoint
/// where two components meet is listed only once.
pub open spec fn spec_plan_items(p: FlightPlan) -> Seq<Seq<NavItemView>> {
    let cs = p.route_components@;
    let raw = Seq::new(cs.len(), |i: int| spec_raw_items(cs[i], kept_legs(p, i)));
    if cs.len() == 0 {
        Seq::empty()
    } else {
        deduped_upto(cs, raw, cs.len() - 1)
    }
}

/// The component is an airport waypoint.
pub open spec fn is_airport_waypoint(c: RouteComponent) -> bool {
    c matches RouteComponent::Waypoint { waypoint: NavRef::Airport(_) }
}

/// View `v` shows what component `i` of plan `p` is and lists, active when
/// `active` names it.
pub open spec fn component_view_fields(
    p: FlightPlan,
    active: Option<usize>,
    i: int,
    v: RouteComponentUiView,
) -> bool {
    let cs = p.route_components@;
    let c = cs[i];
    &&& v.uid == p.route_component_uids@[i]
    &&& v.component_index == i
    &&& v.kind == spec_view_kind(c)
    &&& v.summary@ == spec_component_summary(c)
    &&& v.procedure_id == match c {
        RouteComponent::Procedure { procedure } => Some(procedure.procedure_id),
        _ => None,
    }
    &&& v.procedure_kind == match c {
        RouteComponent::Procedure { procedure } => Some(procedure.kind),
        _ => None,
    }
    &&& match c {
        RouteComponent::Waypoint { waypoint } => airport_chart_of(waypoint, v.chart_airport_id),
        RouteComponent::Procedure { procedure } => v.chart_airport_id == Some(procedure.airport_id.0),
        RouteComponent::Airway { .. } => v.chart_airport_id is None,
    }
    &&& v.nav_ref == match c {
        RouteComponent::Waypoint { waypoint } => Some(waypoint),
        _ => None,
    }
    &&& item_views(v.items@) == spec_plan_items(p)[i]
    &&& v.active == (active == Some(i as usize))
    &&& v.preceding_waypoint == spec_adjacent_waypoint(cs, i, -1)
    &&& v.following_waypoint == spec_adjacent_waypoint(cs, i, 1)
}

/// View `v` offers the edits that component `i` of plan `p` is open to,
/// removal when `removable` says so.
pub open spec fn component_view_edits(
    p: FlightPlan,
    removable: bool,
    i: int,
    v: RouteComponentUiView,
) -> bool {
    let cs = p.route_components@;
    let c = cs[i];
    &&& v.can_add_airway_after == (c is Waypoint && (i + 1 >= cs.len() || cs[i + 1] is Waypoint))
    &&& v.can_add_procedure_before == (is_airport_waypoint(c) && (i + 1 == cs.len()
        || spec_can_insert_procedure_before(cs, i) || spec_replaceable_procedure_before(cs, i) is Some))
    &&& v.can_remove == removable
    &&& v.can_reorder_up == spec_can_reorder(cs, i, -1)
    &&& v.can_reorder_down == spec_can_reorder(cs, i, 1)
    &&& v.can_reorder == (v.can_reorder_up || v.can_reorder_down)
    &&& v.replace_procedure_component_index == opt_index(spec_replaceable_procedure_before(cs, i))
}

/// View `v` offers no edit at all.
pub open spec fn no_component_edits(v: RouteComponentUiView) -> bool {
    &&& !v.can_add_airway_after
    &&& !v.can_add_procedure_before
    &&& !v.can_remove
    &&& !v.can_reorder
    &&& !v.can_reorder_up
    &&& !v.can_reorder_down
    &&& v.replace_procedure_component_index is None
}

/// View `v` shows component `i` of plan `p`, active when `active` names it,
/// removable when `removable` says so.
pub open spec fn spec_component_view(
    p: FlightPlan,
    active: Option<usize>,
    removable: bool,
    i: int,
    v: RouteComponentUiView,
) -> bool {
    component_view_fields(p, active, i, v) && component_view_edits(p, removable, i, v)
}

/// View `v` shows component `i` of plan `p` as the anchor of guidance sees
/// it: what it is and lists, and no edit.
pub open spec fn spec_anchor_view(
    p: FlightPlan,
    active: Option<usize>,
    i: int,
    v: RouteComponentUiView,
) -> bool {
    component_view_fields(p, active, i, v) && no_component_edits(v)
}

proof fn lemma_deduped_len(cs: Seq<RouteComponent>, raw: Seq<Seq<NavItemView>>, b: int)
    requires
        0 <= b < raw.len(),
    ensures
        deduped_upto(cs, raw, b).len() == raw.len(),
    decreases b,
{
    if b > 0 {
        lemma_deduped_len(cs, raw, b - 1);
    }
}

proof fn lemma_plan_items(p: FlightPlan, grouped: Seq<Option<Vec<ResolvedLeg>>>)
    requires
        grouped.len() == p.route_components.len(),
        forall|c: int|
            0 <= c < grouped.len() ==> match #[trigger] grouped[c] {
                Some(v) => spec_grouped_legs(p, c) == Some(v@),
                None => spec_grouped_legs(p, c) is None,
            },
    ensures
        spec_projected_items(p.route_components@, grouped) == spec_plan_items(p),
        spec_plan_items(p).len() == p.route_components.len(),
{
    let cs = p.route_components@;
    let raw = Seq::new(cs.len(), |i: int| spec_raw_items(cs[i], kept_legs(p, i)));
    if cs.len() > 0 {
        lemma_deduped_len(cs, raw, cs.len() - 1);
    }
    assert forall|i: int| 0 <= i < cs.len() implies grouped_at(grouped, i) == kept_legs(p, i) by {
        assert(grouped[i] == grouped[i]);
    }
    assert(raw_items_of(cs, grouped) =~= raw);
}

/// The components of the plan as the view shows them, with the edits they
/// are open to when `with_edits` holds and none otherwise.
fn component_views(
    plan: &FlightPlan,
    active_component_index: Option<usize>,
    removable: &[bool],
    with_edits: bool,
) -> (r: Vec<RouteComponentUiView>)
    requires
        plan.route_component_uids.len() >= plan.route_components.len(),
        removable@.len() == plan.route_components.len(),
        plan.route_components.len() <= isize::MAX,
    ensures
        r@.len() == plan.route_components.len(),
        forall|i: int|
            0 <= i < r@.len() ==> component_view_fields(
                *plan,
                active_component_index,
                i,
                #[trigger] r@[i],
            ) && if with_edits {
                component_view_edits(*plan, removable@[i], i, r@[i])
            } else {
                no_component_edits(r@[i])
            },
{
    let grouped_legs = grouped_component_legs(plan);
    let projected_items = dedupe_component_items_for_projection(
        &plan.route_components,
        &grouped_legs,
    );
    proof {
        lemma_plan_items(*plan, grouped_legs@);
    }
    let ghost cs = plan.route_components@;
    let n = plan.route_components.len();
    let mut r: Vec<RouteComponentUiView> = Vec::new();
    let mut i: usize = 0;
    while i < n
        invariant
            n == cs.len(),
            cs == plan.route_components@,
            n <= isize::MAX,
            plan.route_component_uids.len() >= n,
            removable@.len() == n,
            lists_view(projected_items@) == spec_plan_items(*plan),
            projected_items@.len() == n,
            i <= n,
            r@.len() == i,
            forall|k: int|
                0 <= k < i ==> component_view_fields(
                    *plan,
                    active_component_index,
                    k,
                    #[trigger] r@[k],
                ) && if with_edits {
                    component_view_edits(*plan, removable@[k], k, r@[k])
                } else {
                    no_component_edits(r@[k])
                },
        decreases n - i,
    {
        let component = &plan.route_components[i];
        let items = if i < projected_items.len() {
            let mut copy: Vec<crate::route::ConcretizedNavItem> = Vec::new();
            let source = &projected_items[i];
            let mut k: usize = 0;
            while k < source.len()
                invariant
                    k <= source@.len(),
                    copy@ == source@.take(k as int),
                decreases source@.len() - k,
            {
                copy.push(source[k].duplicate());
                assert(source@.take(k + 1) =~= source@.take(k as int).push(source@[k as int]));
                k = k + 1;
            }
            assert(source@.take(source@.len() as int) =~= source@);
            copy
        } else {
            Vec::new()
        };
        proof {
            assert(lists_view(projected_items@)[i as int] == item_views(projected_items@[i as int]@));
        }
        let nav_ref = match component {
            RouteComponent::Waypoint { waypoint } => Some(waypoint.duplicate()),
            _ => None,
        };
        let next_is_waypoint_or_end = if i + 1 < n {
            plan.route_components[i + 1].is_waypoint()
        } else {
            true
        };
        let is_airport = match component {
            RouteComponent::Waypoint { waypoint: NavRef::Airport(_) } => true,
            _ => false,
        };
        let replace = replaceable_procedure_component_before(plan, i);
        let can_add_procedure_before = is_airport && (i + 1 == n
            || can_insert_procedure_before_component(plan, i) || replace.is_some());
        let can_reorder_up = can_reorder_component_in_direction(plan, i, -1);
        let can_reorder_down = can_reorder_component_in_direction(plan, i, 1);
        let view = RouteComponentUiView {
            uid: plan.route_component_uids[i].clone(),
            component_index: i,
            kind: component_view_kind(component),
            summary: component_summary(component),
            procedure_id: component_procedure_id(component),
            procedure_kind: component_procedure_kind(component),
            chart_airport_id: component_chart_airport_id(component),
            nav_ref,
            items,
            active: match active_component_index {
                Some(a) => a == i,
                None => false,
            },
            can_add_airway_after: with_edits && component.is_waypoint() && next_is_waypoint_or_end,
            can_add_procedure_before: with_edits && can_add_procedure_before,
            can_remove: with_edits && removable[i],
            can_reorder: with_edits && (can_reorder_up || can_reorder_down),
            can_reorder_up: with_edits && can_reorder_up,
            can_reorder_down: with_edits && can_reorder_down,
            replace_procedure_component_index: if with_edits {
                replace
            } else {
                None
            },
            preceding_waypoint: adjacent_waypoint_component(plan.route_components.as_slice(), i, -1),
            following_waypoint: adjacent_waypoint_component(plan.route_components.as_slice(), i, 1),
        };
        r.push(view);
        i = i + 1;
    }
    r
}

/// The components of the plan as the view shows them; `removable` says, for
/// each component, whether deleting it would succeed.
pub fn project_component_ui_views(
    plan: &FlightPlan,
    active_component_index: Option<usize>,
    removable: &[bool],
) -> (r: Vec<RouteComponentUiView>)
    requires
        plan.route_component_uids.len() >= plan.route_components.len(),
        removable@.len() == plan.route_components.len(),
        plan.route_components.len() <= isize::MAX,
    ensures
        r@.len() == plan.route_components.len(),
        forall|i: int|
            0 <= i < r@.len() ==> spec_component_view(
                *plan,
                active_component_index,
                removable@[i],
                i,
                #[trigger] r@[i],
            ),
{
    component_views(plan, active_component_index, removable, true)
}

/// The components of the plan as the anchor of guidance sees them: what
/// each is and lists, the active one marked, and no edit.
pub fn guidance_anchor_component_views(plan: &FlightPlan, active_component_index: Option<usize>) -> (r:
    Vec<RouteComponentUiView>)
    requires
        plan.route_component_uids.len() >= plan.route_components.len(),
        plan.route_components.len() <= isize::MAX,
    ensures
        r@.len() == plan.route_components.len(),
        forall|i: int|
            0 <= i < r@.len() ==> spec_anchor_view(*plan, active_component_index, i, #[trigger] r@[i]),
{
    let n = plan.route_components.len();
    let mut removable: Vec<bool> = Vec::new();
    let mut i: usize = 0;
    while i < n
        invariant
            i <= n,
            removable@.len() == i,
        decreases n - i,
    {
        removable.push(false);
        i = i + 1;
    }
    component_views(plan, active_component_index, removable.as_slice(), false)
}

/// `rows` are the display rows of plan `p` with its components shown as
/// `views`, none of them active.
pub open spec fn identity_rows_from(
    p: FlightPlan,
    removable: Seq<bool>,
    views: Seq<RouteComponentUiView>,
    rows: Seq<FlightPlanDisplayRowUiView>,
) -> bool {
    &&& views.len() == p.route_components.len()
    &&& forall|i: int|
        0 <= i < views.len() ==> spec_component_view(p, None, removable[i], i, #[trigger] views[i])
    &&& spec_display_rows(p, views, rows)
}

/// The display rows of the plan without any component marked active;
/// `removable` says, for each component, whether deleting it would succeed.
pub fn project_identity_rows(plan: &FlightPlan, removable: &[bool]) -> (r: Vec<
    FlightPlanDisplayRowUiView,
>)
    requires
        crate::flight_plan::details_fit(*plan),
        plan.route_component_uids.len() >= plan.route_components.len(),
        removable@.len() == plan.route_components.len(),
        plan.route_components.len() <= isize::MAX,
    ensures
        exists|views: Seq<RouteComponentUiView>| #[trigger] identity_rows_from(*plan, removable@, views, r@),
{
    let components = project_component_ui_views(plan, None, removable);
    let rows = project_display_rows(plan, components.as_slice());
    assert(identity_rows_from(*plan, removable@, components@, rows@));
    rows
}

} // verus!
