//! The projection of a flight plan into display rows: a row for each
//! waypoint component, and for each airway or procedure a group row followed
//! by a row for each waypoint and break that it lists, then the row of an
//! off-plan Direct-To. While such a Direct-To is flown every other row is
//! closed to edits; otherwise the rows of the active leg do not offer to
//! activate it again.
use crate::display_rows::{
    apply_component_mutation_action_availability, availability_applied,
    child_waypoint_row_leg_index, lemma_first_leg_of_range, lemma_first_leg_reaching_range,
    lemma_nth_leg_to_range, spec_child_row_leg, spec_top_row_leg, top_level_waypoint_row_leg_index,
};
use crate::flight_plan::{
    details_fit, flight_plan_has_direct_to_overlay, guidance_detail_ref_by_index,
    spec_detail_ref, FlightPlan,
};
use crate::guidance::{spec_has_direct_to_overlay, DirectToState, GuidanceState, SequencingMode};
use crate::nav::{
    airport_id_from_nav_ref, duplicate_nav_ref_opt, nav_ref_key, nav_ref_label,
    spec_nav_ref_key, spec_nav_ref_label, NavRef,
};
use crate::route::{
    ConcretizedNavItem, ProcedureDiscontinuity, RouteComponent, RouteComponentViewKind,
};
use crate::row_actions::{
    action, action_matrix_from_actions, assign_action_uids, core_session_action,
    duplicate_text_opt, matrix_view, opt_text, session_action, spec_action_matrix,
    spec_disabled_reason_text, ui_action, uid_assigned, FlightPlanRowActionId,
    FlightPlanRowActionUiView, OFF_PLAN_DIRECT_TO_EDIT_DISABLED_REASON,
};
use crate::rows::{
    child_waypoint_actions_for_row, child_waypoint_menu, first_waypoint, group_row_actions,
    group_row_menu, projected_component_waypoint_nav_ref,
    refresh_flight_plan_row_action_navigation, refreshed_action, spec_child_waypoint_row_uid,
    spec_row_navigation, spec_top_level_waypoint_row_uid, spec_view_kind_name,
    structured_component_label, top_level_waypoint_menu, top_level_waypoint_row_uid,
    child_waypoint_row_uid, view_kind_name, waypoint_actions_for_row, FlightPlanDisplayRowKind,
    FlightPlanDisplayRowUiView, RouteComponentUiView,
};
use crate::sequencing::{
    last_guidance_leg_index_for_component, last_leg_of_component, lemma_last_leg_of_component,
    spec_terminal_hold_start_detail, terminal_hold_start_detail_index_for_leg,
};
use crate::text::{decimal, lemma_numeral_prefix, owned, push_decimal, push_str, str_eq};
use vstd::prelude::*;

verus! {

/// Why an already active leg cannot be activated from its row.
pub const ACTIVE_LEG_DISABLED_REASON: &'static str = "This leg is already active.";

/// An optional index as a `usize`.
pub open spec fn opt_index(i: Option<int>) -> Option<usize> {
    match i {
        Some(k) => Some(k as usize),
        None => None,
    }
}

/// Guidance is in the terminal hold of its active leg: its active detail
/// belongs to that leg and lies at or after the detail where the hold
/// starts.
pub open spec fn spec_rows_in_terminal_hold(p: FlightPlan, g: GuidanceState) -> bool {
    match g.active_detail_index {
        Some(d) => match spec_detail_ref(p.resolved_legs@, d as int) {
            Some(detail) => match spec_terminal_hold_start_detail(p, g.active_leg_index as int) {
                Some(h) => detail.leg_index == g.active_leg_index && detail.detail_index >= h,
                None => false,
            },
            None => false,
        },
        None => false,
    }
}

/// The active leg whose rows must not offer to activate it again, and
/// whether guidance is in its terminal hold; none without guidance or while
/// a Direct-To is flown.
pub open spec fn spec_row_activity(p: FlightPlan) -> Option<(usize, bool)> {
    match p.guidance {
        Some(g) => if g.sequencing_mode != SequencingMode::DirectTo {
            Some((g.active_leg_index, spec_rows_in_terminal_hold(p, g)))
        } else {
            None
        },
        None => None,
    }
}

/// The row is the break row of a terminal hold.
pub open spec fn is_hold_row(r: FlightPlanDisplayRowUiView) -> bool {
    r.row_kind == FlightPlanDisplayRowKind::Discontinuity && r.label@ == "HOLD"@
}

/// The row belongs to the active leg, and its Activate Leg would not move
/// guidance: the hold row while guidance holds, any other row of the leg
/// while it does not.
pub open spec fn already_active(r: FlightPlanDisplayRowUiView, activity: Option<(usize, bool)>) -> bool {
    match activity {
        Some((leg, in_hold)) => r.leg_index == Some(leg) && is_hold_row(r) == in_hold,
        None => false,
    }
}

/// `b` is the final form of action `a`: closed to edits while an off-plan
/// Direct-To is flown, Activate Leg closed on a row of the active leg, its
/// reason consistent with its enablement, and its navigation taken from the
/// row.
pub open spec fn finalized_action(
    a: FlightPlanRowActionUiView,
    b: FlightPlanRowActionUiView,
    off_plan: bool,
    row_active: bool,
    chart_airport_id: Option<String>,
    show_plate_target_id: Option<String>,
) -> bool {
    let hit = row_active && a.id == FlightPlanRowActionId::ActivateLeg;
    &&& b.id == a.id
    &&& b.uid == a.uid
    &&& b.menu_column == a.menu_column
    &&& b.label == a.label
    &&& b.execution == a.execution
    &&& b.dismiss_tray_on_success == a.dismiss_tray_on_success
    &&& b.airport_info_airport_id == a.airport_info_airport_id
    &&& b.procedure_kind == a.procedure_kind
    &&& b.navigation == spec_row_navigation(a.id, chart_airport_id, show_plate_target_id)
    &&& b.enabled == (a.enabled && !off_plan && !hit)
    &&& if hit {
        opt_text(b.disabled_reason) == Some(ACTIVE_LEG_DISABLED_REASON@)
    } else if off_plan {
        opt_text(b.disabled_reason) == Some(OFF_PLAN_DIRECT_TO_EDIT_DISABLED_REASON@)
    } else if a.enabled {
        b.disabled_reason is None
    } else if a.disabled_reason is Some {
        b.disabled_reason == a.disabled_reason
    } else {
        opt_text(b.disabled_reason) == Some(spec_disabled_reason_text(a.id))
    }
}

/// Matrix `f` is matrix `m` with each action in its final form.
pub open spec fn finalized_matrix(
    m: Seq<Seq<FlightPlanRowActionUiView>>,
    f: Seq<Seq<FlightPlanRowActionUiView>>,
    off_plan: bool,
    row_active: bool,
    chart_airport_id: Option<String>,
    show_plate_target_id: Option<String>,
) -> bool {
    &&& f.len() == m.len()
    &&& forall|i: int| 0 <= i < m.len() ==> #[trigger] f[i].len() == m[i].len()
    &&& forall|i: int, j: int|
        0 <= i < m.len() && 0 <= j < m[i].len() ==> finalized_action(
            m[i][j],
            #[trigger] f[i][j],
            off_plan,
            row_active,
            chart_airport_id,
            show_plate_target_id,
        )
}

/// `named` is `acts` given uids under the row uid `uid`.
pub open spec fn uids_assigned(
    uid: Seq<char>,
    acts: Seq<FlightPlanRowActionUiView>,
    named: Seq<FlightPlanRowActionUiView>,
) -> bool {
    &&& named.len() == acts.len()
    &&& forall|i: int| 0 <= i < acts.len() ==> uid_assigned(uid, acts[i], #[trigger] named[i])
}

/// `checked` is `menu` after each route edit is checked against the route
/// at component `c`.
pub open spec fn edits_checked(
    cs: Seq<RouteComponent>,
    c: int,
    menu: Seq<FlightPlanRowActionUiView>,
    checked: Seq<FlightPlanRowActionUiView>,
) -> bool {
    &&& checked.len() == menu.len()
    &&& forall|i: int| 0 <= i < menu.len() ==> availability_applied(cs, c, menu[i], #[trigger] checked[i])
}

/// The row's matrix lays out `named` in final form.
pub open spec fn row_matrix_from(
    r: FlightPlanDisplayRowUiView,
    named: Seq<FlightPlanRowActionUiView>,
    overlay: bool,
    activity: Option<(usize, bool)>,
) -> bool {
    finalized_matrix(
        spec_action_matrix(named),
        matrix_view(r.action_matrix@),
        overlay && !r.synthetic_direct_to,
        already_active(r, activity),
        r.chart_airport_id,
        r.show_plate_target_id,
    )
}

/// The fields that every row of component `c` shares.
pub open spec fn component_row_common(
    r: FlightPlanDisplayRowUiView,
    c: RouteComponentUiView,
    overlay: bool,
) -> bool {
    &&& r.component_kind == Some(c.kind)
    &&& opt_text(r.component_uid) == Some(c.uid@)
    &&& r.component_index == Some(c.component_index)
    &&& r.procedure_id == c.procedure_id
    &&& r.procedure_kind == c.procedure_kind
    &&& r.show_plate_target_id is None
    &&& r.weather_badge is None
    &&& r.enabled == !overlay
    &&& if overlay {
        opt_text(r.disabled_reason) == Some(OFF_PLAN_DIRECT_TO_EDIT_DISABLED_REASON@)
    } else {
        r.disabled_reason is None
    }
    &&& !r.synthetic_direct_to
    &&& r.preceding_waypoint == c.preceding_waypoint
    &&& r.following_waypoint == c.following_waypoint
}

/// The row carries the edit flags of its component.
pub open spec fn component_edit_flags(r: FlightPlanDisplayRowUiView, c: RouteComponentUiView) -> bool {
    &&& r.can_add_airway_after == c.can_add_airway_after
    &&& r.can_add_procedure_before == c.can_add_procedure_before
    &&& r.can_remove_component == c.can_remove
    &&& r.can_reorder_component == c.can_reorder
    &&& r.can_reorder_up == c.can_reorder_up
    &&& r.can_reorder_down == c.can_reorder_down
}

/// The row offers no component edit and has no anchors.
pub open spec fn no_edit_flags(r: FlightPlanDisplayRowUiView) -> bool {
    &&& !r.can_add_airway_after
    &&& !r.can_add_procedure_before
    &&& !r.can_remove_component
    &&& !r.can_reorder_component
    &&& !r.can_reorder_up
    &&& !r.can_reorder_down
    &&& r.origin_anchor is None
    &&& r.destination_anchor is None
}

/// The actions of the row of waypoint component `c`: its full menu, each
/// route edit checked against the route, given uids, in final form.
pub open spec fn top_row_actions(
    p: FlightPlan,
    c: RouteComponentUiView,
    r: FlightPlanDisplayRowUiView,
    overlay: bool,
    activity: Option<(usize, bool)>,
    menu: Seq<FlightPlanRowActionUiView>,
    checked: Seq<FlightPlanRowActionUiView>,
    named: Seq<FlightPlanRowActionUiView>,
) -> bool {
    let cs = p.route_components@;
    let anchor = first_waypoint(c.items@);
    &&& top_level_waypoint_menu(
        menu,
        r.leg_index,
        anchor is Some,
        c.can_add_airway_after,
        c.can_add_procedure_before,
        c.component_index == 0 && c.chart_airport_id is Some,
        c.component_index + 1 == cs.len() && c.chart_airport_id is Some,
        c.can_remove,
        c.can_reorder_up,
        c.can_reorder_down,
        true,
        c.chart_airport_id is Some,
        anchor is Some,
    )
    &&& edits_checked(cs, c.component_index as int, menu, checked)
    &&& uids_assigned(r.uid@, checked, named)
    &&& row_matrix_from(r, named, overlay, activity)
}

/// The row of waypoint component `c`.
pub open spec fn spec_top_row(
    p: FlightPlan,
    c: RouteComponentUiView,
    overlay: bool,
    activity: Option<(usize, bool)>,
    r: FlightPlanDisplayRowUiView,
) -> bool {
    &&& component_row_common(r, c, overlay)
    &&& component_edit_flags(r, c)
    &&& r.uid@ == spec_top_level_waypoint_row_uid(c)
    &&& r.label@ == match c.nav_ref {
        Some(n) => spec_nav_ref_label(n),
        None => c.summary@,
    }
    &&& r.row_kind == FlightPlanDisplayRowKind::Waypoint
    &&& r.leg_index == opt_index(spec_top_row_leg(p, c.component_index as int))
    &&& r.chart_airport_id == c.chart_airport_id
    &&& r.nav_ref == c.nav_ref
    &&& r.depth == 0
    &&& r.active == c.active
    &&& r.origin_anchor == first_waypoint(c.items@)
    &&& r.destination_anchor == c.following_waypoint
    &&& exists|menu: Seq<FlightPlanRowActionUiView>, checked: Seq<FlightPlanRowActionUiView>, named: Seq<FlightPlanRowActionUiView>|
        #[trigger] top_row_actions(p, c, r, overlay, activity, menu, checked, named)
}

/// `b` is `a` closed to edits when `off_plan`, and closed as the active leg
/// when `row_active` and it is Activate Leg.
spec fn adjusted_action(
    a: FlightPlanRowActionUiView,
    b: FlightPlanRowActionUiView,
    off_plan: bool,
    row_active: bool,
) -> bool {
    let hit = row_active && a.id == FlightPlanRowActionId::ActivateLeg;
    &&& b.id == a.id
    &&& b.uid == a.uid
    &&& b.menu_column == a.menu_column
    &&& b.label == a.label
    &&& b.execution == a.execution
    &&& b.dismiss_tray_on_success == a.dismiss_tray_on_success
    &&& b.navigation == a.navigation
    &&& b.airport_info_airport_id == a.airport_info_airport_id
    &&& b.procedure_kind == a.procedure_kind
    &&& b.enabled == (a.enabled && !off_plan && !hit)
    &&& if hit {
        opt_text(b.disabled_reason) == Some(ACTIVE_LEG_DISABLED_REASON@)
    } else if off_plan {
        opt_text(b.disabled_reason) == Some(OFF_PLAN_DIRECT_TO_EDIT_DISABLED_REASON@)
    } else {
        b.disabled_reason == a.disabled_reason
    }
}

fn adjust_action(a: &FlightPlanRowActionUiView, off_plan: bool, row_active: bool) -> (r:
    FlightPlanRowActionUiView)
    ensures
        adjusted_action(*a, r, off_plan, row_active),
{
    let mut b = a.duplicate();
    if off_plan {
        b.enabled = false;
        b.disabled_reason = Some(owned(OFF_PLAN_DIRECT_TO_EDIT_DISABLED_REASON));
    }
    if row_active && b.id == FlightPlanRowActionId::ActivateLeg {
        b.enabled = false;
        b.disabled_reason = Some(owned(ACTIVE_LEG_DISABLED_REASON));
    }
    b
}

fn row_is_already_active(row: &FlightPlanDisplayRowUiView, activity: Option<(usize, bool)>) -> (r:
    bool)
    ensures
        r == already_active(*row, activity),
{
    match activity {
        Some((leg, in_hold)) => {
            let on_leg = match row.leg_index {
                Some(l) => l == leg,
                None => false,
            };
            let hold_row = row.row_kind == FlightPlanDisplayRowKind::Discontinuity && str_eq(
                row.label.as_str(),
                "HOLD",
            );
            on_leg && hold_row == in_hold
        },
        None => false,
    }
}

/// Puts a row in final form: closed to edits while an off-plan Direct-To is
/// flown (unless it is that Direct-To's row), Activate Leg closed on a row
/// of the active leg, and each action's reason and navigation refreshed.
fn finalize_row(row: &mut FlightPlanDisplayRowUiView, overlay: bool, activity: Option<(usize, bool)>)
    ensures
        *final(row) == (FlightPlanDisplayRowUiView {
            enabled: final(row).enabled,
            disabled_reason: final(row).disabled_reason,
            action_matrix: final(row).action_matrix,
            ..*old(row)
        }),
        if overlay && !old(row).synthetic_direct_to {
            !final(row).enabled && opt_text(final(row).disabled_reason) == Some(
                OFF_PLAN_DIRECT_TO_EDIT_DISABLED_REASON@,
            )
        } else {
            final(row).enabled == old(row).enabled && final(row).disabled_reason == old(
                row,
            ).disabled_reason
        },
        finalized_matrix(
            matrix_view(old(row).action_matrix@),
            matrix_view(final(row).action_matrix@),
            overlay && !old(row).synthetic_direct_to,
            already_active(*old(row), activity),
            old(row).chart_airport_id,
            old(row).show_plate_target_id,
        ),
{
    let off_plan = overlay && !row.synthetic_direct_to;
    let row_active = row_is_already_active(row, activity);
    let ghost before = *row;
    let mut matrix: Vec<Vec<FlightPlanRowActionUiView>> = Vec::new();
    let mut i: usize = 0;
    while i < row.action_matrix.len()
        invariant
            *row == before,
            i <= row.action_matrix@.len(),
            matrix@.len() == i,
            forall|k: int| 0 <= k < i ==> #[trigger] matrix@[k]@.len() == row.action_matrix@[k]@.len(),
            forall|k: int, j: int|
                0 <= k < i && 0 <= j < matrix@[k]@.len() ==> adjusted_action(
                    row.action_matrix@[k]@[j],
                    #[trigger] matrix@[k]@[j],
                    off_plan,
                    row_active,
                ),
        decreases row.action_matrix@.len() - i,
    {
        let line = &row.action_matrix[i];
        let mut new_line: Vec<FlightPlanRowActionUiView> = Vec::new();
        let mut j: usize = 0;
        while j < line.len()
            invariant
                j <= line@.len(),
                new_line@.len() == j,
                forall|m: int|
                    0 <= m < j ==> adjusted_action(line@[m], #[trigger] new_line@[m], off_plan, row_active),
            decreases line@.len() - j,
        {
            new_line.push(adjust_action(&line[j], off_plan, row_active));
            j = j + 1;
        }
        matrix.push(new_line);
        i = i + 1;
    }
    row.action_matrix = matrix;
    if off_plan {
        row.enabled = false;
        row.disabled_reason = Some(owned(OFF_PLAN_DIRECT_TO_EDIT_DISABLED_REASON));
    }
    let ghost adjusted = *row;
    refresh_flight_plan_row_action_navigation(row);
    proof {
        let m = matrix_view(before.action_matrix@);
        let f = matrix_view(row.action_matrix@);
        let mid = matrix_view(adjusted.action_matrix@);
        assert forall|k: int, j: int| 0 <= k < m.len() && 0 <= j < m[k].len() implies finalized_action(
            m[k][j],
            #[trigger] f[k][j],
            off_plan,
            row_active,
            before.chart_airport_id,
            before.show_plate_target_id,
        ) by {
            assert(adjusted.action_matrix@[k]@.len() == before.action_matrix@[k]@.len());
            assert(adjusted_action(m[k][j], mid[k][j], off_plan, row_active));
            assert(refreshed_action(
                adjusted.action_matrix@[k]@[j],
                row.action_matrix@[k]@[j],
                adjusted.chart_airport_id,
                adjusted.show_plate_target_id,
            ));
        }
        assert forall|k: int| 0 <= k < m.len() implies #[trigger] f[k].len() == m[k].len() by {
            assert(row.action_matrix@[k]@.len() == adjusted.action_matrix@[k]@.len());
        }
    }
}

/// The row of waypoint component `component`.
fn top_level_waypoint_row(
    plan: &FlightPlan,
    component: &RouteComponentUiView,
    overlay: bool,
    activity: Option<(usize, bool)>,
) -> (r: FlightPlanDisplayRowUiView)
    requires
        plan.route_components.len() <= isize::MAX,
    ensures
        spec_top_row(*plan, *component, overlay, activity, r),
{
    let projected = projected_component_waypoint_nav_ref(component);
    let leg_index = top_level_waypoint_row_leg_index(plan, component.component_index);
    let uid = top_level_waypoint_row_uid(component, leg_index);
    let is_last = component.component_index < usize::MAX && component.component_index + 1
        == plan.route_components.len();
    let menu = waypoint_actions_for_row(
        FlightPlanDisplayRowKind::Waypoint,
        0,
        leg_index,
        projected.as_ref(),
        component.can_add_airway_after,
        component.can_add_procedure_before,
        component.component_index == 0 && component.chart_airport_id.is_some(),
        is_last && component.chart_airport_id.is_some(),
        component.can_remove,
        component.can_reorder_up,
        component.can_reorder_down,
        Some(component.component_index),
        component.chart_airport_id.as_ref(),
        projected.as_ref(),
    );
    let ghost menu_view = menu@;
    let checked = apply_component_mutation_action_availability(
        plan,
        component.component_index,
        menu,
    );
    let ghost checked_view = checked@;
    let named = assign_action_uids(uid.as_str(), checked);
    let ghost named_view = named@;
    let action_matrix = action_matrix_from_actions(named.as_slice());
    let label = match &component.nav_ref {
        Some(n) => nav_ref_label(n),
        None => component.summary.clone(),
    };
    let mut row = FlightPlanDisplayRowUiView {
        uid,
        label,
        row_kind: FlightPlanDisplayRowKind::Waypoint,
        component_kind: Some(component.kind),
        component_uid: Some(component.uid.clone()),
        component_index: Some(component.component_index),
        procedure_id: duplicate_text_opt(&component.procedure_id),
        procedure_kind: component.procedure_kind,
        leg_index,
        show_plate_target_id: None,
        chart_airport_id: duplicate_text_opt(&component.chart_airport_id),
        nav_ref: duplicate_nav_ref_opt(&component.nav_ref),
        weather_badge: None,
        depth: 0,
        active: component.active,
        enabled: !overlay,
        disabled_reason: None,
        synthetic_direct_to: false,
        can_add_airway_after: component.can_add_airway_after,
        can_add_procedure_before: component.can_add_procedure_before,
        can_remove_component: component.can_remove,
        can_reorder_component: component.can_reorder,
        can_reorder_up: component.can_reorder_up,
        can_reorder_down: component.can_reorder_down,
        origin_anchor: projected,
        destination_anchor: duplicate_nav_ref_opt(&component.following_waypoint),
        preceding_waypoint: duplicate_nav_ref_opt(&component.preceding_waypoint),
        following_waypoint: duplicate_nav_ref_opt(&component.following_waypoint),
        action_matrix,
    };
    finalize_row(&mut row, overlay, activity);
    assert(top_row_actions(*plan, *component, row, overlay, activity, menu_view, checked_view, named_view));
    row
}

/// `component:{uid}:{Kind}:group`.
pub open spec fn spec_group_row_uid(c: RouteComponentUiView) -> Seq<char> {
    "component:"@ + c.uid@ + ":"@ + spec_view_kind_name(c.kind) + ":group"@
}

/// The actions of the group row of component `c`: its menu, each route edit
/// checked against the route, given uids, in final form.
pub open spec fn group_row_actions_from(
    p: FlightPlan,
    c: RouteComponentUiView,
    r: FlightPlanDisplayRowUiView,
    overlay: bool,
    activity: Option<(usize, bool)>,
    menu: Seq<FlightPlanRowActionUiView>,
    checked: Seq<FlightPlanRowActionUiView>,
    named: Seq<FlightPlanRowActionUiView>,
) -> bool {
    &&& group_row_menu(c, menu)
    &&& edits_checked(p.route_components@, c.component_index as int, menu, checked)
    &&& uids_assigned(r.uid@, checked, named)
    &&& row_matrix_from(r, named, overlay, activity)
}

/// The group row of airway or procedure component `c`.
pub open spec fn spec_group_row(
    p: FlightPlan,
    c: RouteComponentUiView,
    overlay: bool,
    activity: Option<(usize, bool)>,
    r: FlightPlanDisplayRowUiView,
) -> bool {
    &&& component_row_common(r, c, overlay)
    &&& component_edit_flags(r, c)
    &&& r.uid@ == spec_group_row_uid(c)
    &&& r.label == c.summary
    &&& r.row_kind == FlightPlanDisplayRowKind::Group
    &&& r.leg_index is None
    &&& r.chart_airport_id == c.chart_airport_id
    &&& r.nav_ref is None
    &&& r.depth == 0
    &&& r.active == c.active
    &&& r.origin_anchor == c.preceding_waypoint
    &&& r.destination_anchor == c.following_waypoint
    &&& exists|menu: Seq<FlightPlanRowActionUiView>, checked: Seq<FlightPlanRowActionUiView>, named: Seq<FlightPlanRowActionUiView>|
        #[trigger] group_row_actions_from(p, c, r, overlay, activity, menu, checked, named)
}

/// The group row of component `component`.
fn group_row(
    plan: &FlightPlan,
    component: &RouteComponentUiView,
    overlay: bool,
    activity: Option<(usize, bool)>,
) -> (r: FlightPlanDisplayRowUiView)
    requires
        plan.route_components.len() <= isize::MAX,
    ensures
        spec_group_row(*plan, *component, overlay, activity, r),
{
    let mut uid = owned("component:");
    push_str(&mut uid, component.uid.as_str());
    push_str(&mut uid, ":");
    push_str(&mut uid, view_kind_name(component.kind));
    push_str(&mut uid, ":group");
    let menu = group_row_actions(component);
    let ghost menu_view = menu@;
    let checked = apply_component_mutation_action_availability(
        plan,
        component.component_index,
        menu,
    );
    let ghost checked_view = checked@;
    let named = assign_action_uids(uid.as_str(), checked);
    let ghost named_view = named@;
    let action_matrix = action_matrix_from_actions(named.as_slice());
    let mut row = FlightPlanDisplayRowUiView {
        uid,
        label: structured_component_label(component),
        row_kind: FlightPlanDisplayRowKind::Group,
        component_kind: Some(component.kind),
        component_uid: Some(component.uid.clone()),
        component_index: Some(component.component_index),
        procedure_id: duplicate_text_opt(&component.procedure_id),
        procedure_kind: component.procedure_kind,
        leg_index: None,
        show_plate_target_id: None,
        chart_airport_id: duplicate_text_opt(&component.chart_airport_id),
        nav_ref: None,
        weather_badge: None,
        depth: 0,
        active: component.active,
        enabled: !overlay,
        disabled_reason: None,
        synthetic_direct_to: false,
        can_add_airway_after: component.can_add_airway_after,
        can_add_procedure_before: component.can_add_procedure_before,
        can_remove_component: component.can_remove,
        can_reorder_component: component.can_reorder,
        can_reorder_up: component.can_reorder_up,
        can_reorder_down: component.can_reorder_down,
        origin_anchor: duplicate_nav_ref_opt(&component.preceding_waypoint),
        destination_anchor: duplicate_nav_ref_opt(&component.following_waypoint),
        preceding_waypoint: duplicate_nav_ref_opt(&component.preceding_waypoint),
        following_waypoint: duplicate_nav_ref_opt(&component.following_waypoint),
        action_matrix,
    };
    proof {
        assert(uid@ =~= spec_group_row_uid(*component));
    }
    finalize_row(&mut row, overlay, activity);
    assert(group_row_actions_from(
        *plan,
        *component,
        row,
        overlay,
        activity,
        menu_view,
        checked_view,
        named_view,
    ));
    row
}

/// The airport that a reference names, as a row's chart airport.
pub open spec fn airport_chart_of(n: NavRef, chart_airport_id: Option<String>) -> bool {
    match n {
        NavRef::Airport(code) => chart_airport_id is Some && chart_airport_id->0@ == code@,
        _ => chart_airport_id is None,
    }
}

/// The actions of a waypoint row inside a group: its menu, given uids, in
/// final form.
pub open spec fn child_row_actions_from(
    c: RouteComponentUiView,
    r: FlightPlanDisplayRowUiView,
    waypoint_index: usize,
    waypoint_count: usize,
    overlay: bool,
    activity: Option<(usize, bool)>,
    menu: Seq<FlightPlanRowActionUiView>,
    named: Seq<FlightPlanRowActionUiView>,
) -> bool {
    &&& child_waypoint_menu(menu, c.kind, r.leg_index, true, waypoint_index, waypoint_count)
    &&& uids_assigned(r.uid@, menu, named)
    &&& row_matrix_from(r, named, overlay, activity)
}

/// The row of waypoint `n`, listed by group component `c` as its item
/// `occurrence`, the `waypoint_occurrence`-th listing of `n` there and its
/// waypoint `waypoint_index` of `waypoint_count`.
pub open spec fn spec_child_row(
    p: FlightPlan,
    c: RouteComponentUiView,
    occurrence: usize,
    waypoint_occurrence: usize,
    waypoint_index: usize,
    waypoint_count: usize,
    n: NavRef,
    overlay: bool,
    activity: Option<(usize, bool)>,
    r: FlightPlanDisplayRowUiView,
) -> bool {
    &&& component_row_common(r, c, overlay)
    &&& no_edit_flags(r)
    &&& r.uid@ == spec_child_waypoint_row_uid(c.uid@, c.kind, occurrence, n)
    &&& r.label@ == spec_nav_ref_label(n)
    &&& r.row_kind == FlightPlanDisplayRowKind::Waypoint
    &&& r.leg_index == opt_index(
        spec_child_row_leg(
            p,
            c.component_index as int,
            waypoint_index as int,
            waypoint_occurrence as int,
            n,
        ),
    )
    &&& airport_chart_of(n, r.chart_airport_id)
    &&& r.nav_ref == Some(n)
    &&& r.depth == 1
    &&& r.active == c.active
    &&& exists|menu: Seq<FlightPlanRowActionUiView>, named: Seq<FlightPlanRowActionUiView>|
        #[trigger] child_row_actions_from(
            c,
            r,
            waypoint_index,
            waypoint_count,
            overlay,
            activity,
            menu,
            named,
        )
}

/// The row of a waypoint listed by a group component.
fn child_waypoint_row(
    plan: &FlightPlan,
    component: &RouteComponentUiView,
    occurrence: usize,
    waypoint_occurrence: usize,
    waypoint_index: usize,
    waypoint_count: usize,
    nav_ref: &NavRef,
    overlay: bool,
    activity: Option<(usize, bool)>,
) -> (r: FlightPlanDisplayRowUiView)
    ensures
        spec_child_row(
            *plan,
            *component,
            occurrence,
            waypoint_occurrence,
            waypoint_index,
            waypoint_count,
            *nav_ref,
            overlay,
            activity,
            r,
        ),
{
    let leg_index = child_waypoint_row_leg_index(
        plan,
        component.component_index,
        waypoint_index,
        waypoint_occurrence,
        nav_ref,
    );
    let uid = child_waypoint_row_uid(
        component.uid.as_str(),
        component.kind,
        occurrence,
        nav_ref,
        leg_index,
    );
    let menu = child_waypoint_actions_for_row(
        FlightPlanDisplayRowKind::Waypoint,
        component.kind,
        leg_index,
        Some(nav_ref),
        waypoint_index,
        waypoint_count,
    );
    let ghost menu_view = menu@;
    let named = assign_action_uids(uid.as_str(), menu);
    let ghost named_view = named@;
    let action_matrix = action_matrix_from_actions(named.as_slice());
    let mut row = FlightPlanDisplayRowUiView {
        uid,
        label: nav_ref_label(nav_ref),
        row_kind: FlightPlanDisplayRowKind::Waypoint,
        component_kind: Some(component.kind),
        component_uid: Some(component.uid.clone()),
        component_index: Some(component.component_index),
        procedure_id: duplicate_text_opt(&component.procedure_id),
        procedure_kind: component.procedure_kind,
        leg_index,
        show_plate_target_id: None,
        chart_airport_id: airport_id_from_nav_ref(nav_ref),
        nav_ref: Some(nav_ref.duplicate()),
        weather_badge: None,
        depth: 1,
        active: component.active,
        enabled: !overlay,
        disabled_reason: None,
        synthetic_direct_to: false,
        can_add_airway_after: false,
        can_add_procedure_before: false,
        can_remove_component: false,
        can_reorder_component: false,
        can_reorder_up: false,
        can_reorder_down: false,
        origin_anchor: None,
        destination_anchor: None,
        preceding_waypoint: duplicate_nav_ref_opt(&component.preceding_waypoint),
        following_waypoint: duplicate_nav_ref_opt(&component.following_waypoint),
        action_matrix,
    };
    finalize_row(&mut row, overlay, activity);
    assert(child_row_actions_from(
        *component,
        row,
        waypoint_index,
        waypoint_count,
        overlay,
        activity,
        menu_view,
        named_view,
    ));
    row
}

/// `component:{uid}:{Kind}:disc:{occurrence}:{label}`.
pub open spec fn spec_break_row_uid(c: RouteComponentUiView, occurrence: usize, label: Seq<char>) -> Seq<
    char,
> {
    "component:"@ + c.uid@ + ":"@ + spec_view_kind_name(c.kind) + ":disc:"@ + decimal(
        occurrence as nat,
    ) + ":"@ + label
}

/// The leg that a break row activates: for a hold, the last leg of its
/// component; none for other breaks.
pub open spec fn spec_break_row_leg(p: FlightPlan, c: int, d: ProcedureDiscontinuity) -> Option<usize> {
    match d {
        ProcedureDiscontinuity::Hold => opt_index(
            last_leg_of_component(p.resolved_legs@, c, p.resolved_legs.len() as int),
        ),
        _ => None,
    }
}

/// The actions of a break row: Activate Leg alone, given its uid, in final
/// form.
pub open spec fn break_row_actions_from(
    r: FlightPlanDisplayRowUiView,
    overlay: bool,
    activity: Option<(usize, bool)>,
    menu: Seq<FlightPlanRowActionUiView>,
    named: Seq<FlightPlanRowActionUiView>,
) -> bool {
    &&& menu.len() == 1
    &&& session_action(menu[0], FlightPlanRowActionId::ActivateLeg, r.leg_index is Some)
    &&& uids_assigned(r.uid@, menu, named)
    &&& row_matrix_from(r, named, overlay, activity)
}

/// The row of the break `d`, labelled `label`, listed by group component
/// `c` as its item `occurrence`.
pub open spec fn spec_break_row(
    p: FlightPlan,
    c: RouteComponentUiView,
    occurrence: usize,
    d: ProcedureDiscontinuity,
    label: String,
    overlay: bool,
    activity: Option<(usize, bool)>,
    r: FlightPlanDisplayRowUiView,
) -> bool {
    &&& component_row_common(r, c, overlay)
    &&& no_edit_flags(r)
    &&& r.uid@ == spec_break_row_uid(c, occurrence, label@)
    &&& r.label == label
    &&& r.row_kind == FlightPlanDisplayRowKind::Discontinuity
    &&& r.leg_index == spec_break_row_leg(p, c.component_index as int, d)
    &&& r.chart_airport_id is None
    &&& r.nav_ref is None
    &&& r.depth == 1
    &&& !r.active
    &&& exists|menu: Seq<FlightPlanRowActionUiView>, named: Seq<FlightPlanRowActionUiView>|
        #[trigger] break_row_actions_from(r, overlay, activity, menu, named)
}

/// The row of a break listed by a group component.
fn break_row(
    plan: &FlightPlan,
    component: &RouteComponentUiView,
    occurrence: usize,
    discontinuity: &ProcedureDiscontinuity,
    label: &String,
    overlay: bool,
    activity: Option<(usize, bool)>,
) -> (r: FlightPlanDisplayRowUiView)
    ensures
        spec_break_row(*plan, *component, occurrence, *discontinuity, *label, overlay, activity, r),
{
    let mut uid = owned("component:");
    push_str(&mut uid, component.uid.as_str());
    push_str(&mut uid, ":");
    push_str(&mut uid, view_kind_name(component.kind));
    push_str(&mut uid, ":disc:");
    push_decimal(&mut uid, occurrence as u64);
    push_str(&mut uid, ":");
    push_str(&mut uid, label.as_str());
    let leg_index = match discontinuity {
        ProcedureDiscontinuity::Hold => last_guidance_leg_index_for_component(
            plan,
            component.component_index,
        ),
        _ => None,
    };
    let mut menu: Vec<FlightPlanRowActionUiView> = Vec::new();
    menu.push(core_session_action(FlightPlanRowActionId::ActivateLeg, leg_index.is_some()));
    let ghost menu_view = menu@;
    let named = assign_action_uids(uid.as_str(), menu);
    let ghost named_view = named@;
    let action_matrix = action_matrix_from_actions(named.as_slice());
    proof {
        assert(uid@ =~= spec_break_row_uid(*component, occurrence, label@));
    }
    let mut row = FlightPlanDisplayRowUiView {
        uid,
        label: label.clone(),
        row_kind: FlightPlanDisplayRowKind::Discontinuity,
        component_kind: Some(component.kind),
        component_uid: Some(component.uid.clone()),
        component_index: Some(component.component_index),
        procedure_id: duplicate_text_opt(&component.procedure_id),
        procedure_kind: component.procedure_kind,
        leg_index,
        show_plate_target_id: None,
        chart_airport_id: None,
        nav_ref: None,
        weather_badge: None,
        depth: 1,
        active: false,
        enabled: !overlay,
        disabled_reason: None,
        synthetic_direct_to: false,
        can_add_airway_after: false,
        can_add_procedure_before: false,
        can_remove_component: false,
        can_reorder_component: false,
        can_reorder_up: false,
        can_reorder_down: false,
        origin_anchor: None,
        destination_anchor: None,
        preceding_waypoint: duplicate_nav_ref_opt(&component.preceding_waypoint),
        following_waypoint: duplicate_nav_ref_opt(&component.following_waypoint),
        action_matrix,
    };
    finalize_row(&mut row, overlay, activity);
    assert(break_row_actions_from(row, overlay, activity, menu_view, named_view));
    row
}

/// The id of the row that a Direct-To targets.
pub open spec fn target_row_id(d: DirectToState) -> Seq<char> {
    match d.target_row {
        crate::guidance::DirectToTargetRow::Planned { row_id } => row_id.0@,
        crate::guidance::DirectToTargetRow::Temporary { row_id } => row_id.0@,
    }
}

/// The actions of the row of an off-plan Direct-To: Waypoint Info alone,
/// disabled, given its uid, with reason and navigation refreshed.
pub open spec fn direct_to_row_actions_from(
    r: FlightPlanDisplayRowUiView,
    menu: Seq<FlightPlanRowActionUiView>,
    named: Seq<FlightPlanRowActionUiView>,
) -> bool {
    &&& menu.len() == 1
    &&& ui_action(menu[0], FlightPlanRowActionId::WaypointInfo, false)
    &&& uids_assigned(r.uid@, menu, named)
    &&& finalized_matrix(
        spec_action_matrix(named),
        matrix_view(r.action_matrix@),
        false,
        false,
        r.chart_airport_id,
        r.show_plate_target_id,
    )
}

/// The row of the off-plan Direct-To `d`: active, open, the only row that
/// stays open while it is flown.
pub open spec fn spec_direct_to_row(d: DirectToState, r: FlightPlanDisplayRowUiView) -> bool {
    &&& r.uid@ == target_row_id(d)
    &&& r.label@ == spec_nav_ref_label(d.target)
    &&& r.row_kind == FlightPlanDisplayRowKind::Waypoint
    &&& r.component_kind == Some(RouteComponentViewKind::Waypoint)
    &&& r.component_uid is None
    &&& r.component_index is None
    &&& r.procedure_id is None
    &&& r.procedure_kind is None
    &&& r.leg_index is None
    &&& r.show_plate_target_id is None
    &&& airport_chart_of(d.target, r.chart_airport_id)
    &&& r.nav_ref == Some(d.target)
    &&& r.weather_badge is None
    &&& r.depth == 0
    &&& r.active
    &&& r.enabled
    &&& r.disabled_reason is None
    &&& r.synthetic_direct_to
    &&& !r.can_add_airway_after
    &&& !r.can_add_procedure_before
    &&& !r.can_remove_component
    &&& !r.can_reorder_component
    &&& !r.can_reorder_up
    &&& !r.can_reorder_down
    &&& r.origin_anchor == Some(d.start)
    &&& r.destination_anchor == Some(d.target)
    &&& r.preceding_waypoint is None
    &&& r.following_waypoint is None
    &&& exists|menu: Seq<FlightPlanRowActionUiView>, named: Seq<FlightPlanRowActionUiView>|
        #[trigger] direct_to_row_actions_from(r, menu, named)
}

/// The row of an off-plan Direct-To.
fn direct_to_row(direct_to: &DirectToState, activity: Option<(usize, bool)>) -> (r:
    FlightPlanDisplayRowUiView)
    requires
        activity is None,
    ensures
        spec_direct_to_row(*direct_to, r),
{
    let uid = direct_to.target_row.row_id().0.clone();
    let mut menu: Vec<FlightPlanRowActionUiView> = Vec::new();
    menu.push(action(FlightPlanRowActionId::WaypointInfo, false));
    let ghost menu_view = menu@;
    let named = assign_action_uids(uid.as_str(), menu);
    let ghost named_view = named@;
    let action_matrix = action_matrix_from_actions(named.as_slice());
    let mut row = FlightPlanDisplayRowUiView {
        uid,
        label: nav_ref_label(&direct_to.target),
        row_kind: FlightPlanDisplayRowKind::Waypoint,
        component_kind: Some(RouteComponentViewKind::Waypoint),
        component_uid: None,
        component_index: None,
        procedure_id: None,
        procedure_kind: None,
        leg_index: None,
        show_plate_target_id: None,
        chart_airport_id: airport_id_from_nav_ref(&direct_to.target),
        nav_ref: Some(direct_to.target.duplicate()),
        weather_badge: None,
        depth: 0,
        active: true,
        enabled: true,
        disabled_reason: None,
        synthetic_direct_to: true,
        can_add_airway_after: false,
        can_add_procedure_before: false,
        can_remove_component: false,
        can_reorder_component: false,
        can_reorder_up: false,
        can_reorder_down: false,
        origin_anchor: Some(direct_to.start.duplicate()),
        destination_anchor: Some(direct_to.target.duplicate()),
        preceding_waypoint: None,
        following_waypoint: None,
        action_matrix,
    };
    finalize_row(&mut row, true, activity);
    assert(direct_to_row_actions_from(row, menu_view, named_view));
    row
}

/// The number of rows of a component: one for a waypoint; for an airway or a
/// procedure its group row and one per listed item.
pub open spec fn component_row_count(c: RouteComponentUiView) -> int {
    if c.kind == RouteComponentViewKind::Waypoint {
        1
    } else {
        1 + c.items@.len() as int
    }
}

/// The number of rows of the first `n` components.
#[verifier::opaque]
pub open spec fn rows_before(cs: Seq<RouteComponentUiView>, n: int) -> int
    decreases n,
{
    if n <= 0 {
        0
    } else {
        rows_before(cs, n - 1) + component_row_count(cs[n - 1])
    }
}

/// Each component adds its own rows to those before it.
proof fn lemma_rows_before_step(cs: Seq<RouteComponentUiView>, n: int)
    requires
        0 <= n,
    ensures
        rows_before(cs, n + 1) == rows_before(cs, n) + component_row_count(cs[n]),
        rows_before(cs, 0) == 0,
{
    reveal(rows_before);
}

proof fn lemma_rows_before_monotone(cs: Seq<RouteComponentUiView>, i: int, j: int)
    requires
        0 <= i <= j,
    ensures
        0 <= rows_before(cs, i) <= rows_before(cs, j),
    decreases j,
{
    reveal(rows_before);
    if j > 0 {
        if i < j {
            lemma_rows_before_monotone(cs, i, j - 1);
        } else {
            lemma_rows_before_monotone(cs, i - 1, j - 1);
        }
    }
}

/// The number of waypoints among the first `n` items.
pub open spec fn waypoints_before(items: Seq<ConcretizedNavItem>, n: int) -> nat
    decreases n,
{
    if n <= 0 {
        0
    } else {
        waypoints_before(items, n - 1) + if items[n - 1] is Waypoint {
            1nat
        } else {
            0nat
        }
    }
}

/// The number of listings, among the first `n` items, of a waypoint whose
/// key is `key`.
pub open spec fn key_listings_before(items: Seq<ConcretizedNavItem>, n: int, key: Seq<char>) -> nat
    decreases n,
{
    if n <= 0 {
        0
    } else {
        key_listings_before(items, n - 1, key) + match items[n - 1] {
            ConcretizedNavItem::Waypoint { nav_ref } => if spec_nav_ref_key(nav_ref) == key {
                1nat
            } else {
                0nat
            },
            _ => 0nat,
        }
    }
}

/// The row of item `j` of group component `c`.
pub open spec fn spec_item_row(
    p: FlightPlan,
    c: RouteComponentUiView,
    j: int,
    overlay: bool,
    activity: Option<(usize, bool)>,
    r: FlightPlanDisplayRowUiView,
) -> bool {
    let items = c.items@;
    match items[j] {
        ConcretizedNavItem::Waypoint { nav_ref } => spec_child_row(
            p,
            c,
            j as usize,
            key_listings_before(items, j, spec_nav_ref_key(nav_ref)) as usize,
            waypoints_before(items, j) as usize,
            if c.kind == RouteComponentViewKind::Airway {
                waypoints_before(items, items.len() as int) as usize
            } else {
                0
            },
            nav_ref,
            overlay,
            activity,
            r,
        ),
        ConcretizedNavItem::Discontinuity { discontinuity, label } => spec_break_row(
            p,
            c,
            j as usize,
            discontinuity,
            label,
            overlay,
            activity,
            r,
        ),
    }
}

/// The rows of component `c`: the row of a waypoint; the group row of an
/// airway or procedure followed by the rows of its items.
#[verifier::opaque]
pub open spec fn spec_component_rows(
    p: FlightPlan,
    c: RouteComponentUiView,
    overlay: bool,
    activity: Option<(usize, bool)>,
    rs: Seq<FlightPlanDisplayRowUiView>,
) -> bool {
    if c.kind == RouteComponentViewKind::Waypoint {
        rs.len() == 1 && spec_top_row(p, c, overlay, activity, rs[0])
    } else {
        &&& rs.len() == 1 + c.items@.len()
        &&& spec_group_row(p, c, overlay, activity, rs[0])
        &&& forall|k: int|
            1 <= k < rs.len() ==> spec_item_row(p, c, k - 1, overlay, activity, #[trigger] rs[k])
    }
}

fn count_waypoints(items: &Vec<ConcretizedNavItem>) -> (r: usize)
    ensures
        r == waypoints_before(items@, items@.len() as int),
{
    let mut count: usize = 0;
    let mut i: usize = 0;
    while i < items.len()
        invariant
            i <= items@.len(),
            count <= i,
            count == waypoints_before(items@, i as int),
        decreases items@.len() - i,
    {
        match &items[i] {
            ConcretizedNavItem::Waypoint { .. } => {
                count = count + 1;
            },
            _ => {},
        }
        i = i + 1;
    }
    count
}

fn count_key_listings(items: &Vec<ConcretizedNavItem>, n: usize, key: &str) -> (r: usize)
    requires
        n <= items@.len(),
    ensures
        r == key_listings_before(items@, n as int, key@),
{
    let mut count: usize = 0;
    let mut i: usize = 0;
    while i < n
        invariant
            n <= items@.len(),
            i <= n,
            count <= i,
            count == key_listings_before(items@, i as int, key@),
        decreases n - i,
    {
        match &items[i] {
            ConcretizedNavItem::Waypoint { nav_ref } => {
                let k = nav_ref_key(nav_ref);
                if str_eq(k.as_str(), key) {
                    count = count + 1;
                }
            },
            _ => {},
        }
        i = i + 1;
    }
    count
}

fn rows_in_terminal_hold(plan: &FlightPlan, guidance: &GuidanceState) -> (r: bool)
    requires
        details_fit(*plan),
    ensures
        r == spec_rows_in_terminal_hold(*plan, *guidance),
{
    match guidance.active_detail_index {
        Some(d) => match guidance_detail_ref_by_index(plan, d) {
            Some(detail) => match terminal_hold_start_detail_index_for_leg(
                plan,
                guidance.active_leg_index,
            ) {
                Some(h) => detail.leg_index == guidance.active_leg_index && detail.detail_index
                    >= h,
                None => false,
            },
            None => false,
        },
        None => false,
    }
}

fn row_activity(plan: &FlightPlan) -> (r: Option<(usize, bool)>)
    requires
        details_fit(*plan),
    ensures
        r == spec_row_activity(*plan),
{
    match &plan.guidance {
        Some(g) => if g.sequencing_mode != SequencingMode::DirectTo {
            Some((g.active_leg_index, rows_in_terminal_hold(plan, g)))
        } else {
            None
        },
        None => None,
    }
}

/// Appends the row of waypoint component `component`.
fn push_waypoint_row(
    plan: &FlightPlan,
    component: &RouteComponentUiView,
    overlay: bool,
    activity: Option<(usize, bool)>,
    rows: &mut Vec<FlightPlanDisplayRowUiView>,
)
    requires
        plan.route_components.len() <= isize::MAX,
        component.kind == RouteComponentViewKind::Waypoint,
    ensures
        final(rows)@.len() == old(rows)@.len() + 1,
        final(rows)@.take(old(rows)@.len() as int) == old(rows)@,
        spec_component_rows(
            *plan,
            *component,
            overlay,
            activity,
            final(rows)@.skip(old(rows)@.len() as int),
        ),
{
    let ghost start = rows@;
    rows.push(top_level_waypoint_row(plan, component, overlay, activity));
    assert(rows@.take(start.len() as int) =~= start);
    reveal(spec_component_rows);
    assert(rows@.skip(start.len() as int)[0] == rows@[start.len() as int]);
}

/// Appends the rows of group component `component`.
fn push_group_rows(
    plan: &FlightPlan,
    component: &RouteComponentUiView,
    overlay: bool,
    activity: Option<(usize, bool)>,
    rows: &mut Vec<FlightPlanDisplayRowUiView>,
)
    requires
        plan.route_components.len() <= isize::MAX,
    ensures
        final(rows)@.len() == old(rows)@.len() + 1 + component.items@.len(),
        final(rows)@.take(old(rows)@.len() as int) == old(rows)@,
        spec_component_rows(
            *plan,
            *component,
            overlay,
            activity,
            final(rows)@.skip(old(rows)@.len() as int),
        ) || component.kind == RouteComponentViewKind::Waypoint,
{
    let ghost start = old(rows)@;
    let base = rows.len();
    rows.push(group_row(plan, component, overlay, activity));
    let items = &component.items;
    let waypoint_count = if component.kind == RouteComponentViewKind::Airway {
        count_waypoints(items)
    } else {
        0
    };
    let mut waypoint_index: usize = 0;
    let mut j: usize = 0;
    while j < items.len()
        invariant
            items@ == component.items@,
            plan.route_components.len() <= isize::MAX,
            base == start.len(),
            j <= items@.len(),
            waypoint_index <= j,
            waypoint_index == waypoints_before(items@, j as int),
            waypoint_count == if component.kind == RouteComponentViewKind::Airway {
                waypoints_before(items@, items@.len() as int) as usize
            } else {
                0
            },
            rows@.len() == base + 1 + j,
            rows@.take(base as int) == start,
            spec_group_row(*plan, *component, overlay, activity, rows@[base as int]),
            forall|k: int|
                0 <= k < j ==> spec_item_row(
                    *plan,
                    *component,
                    k,
                    overlay,
                    activity,
                    #[trigger] rows@[base + 1 + k],
                ),
        decreases items@.len() - j,
    {
        let ghost before = rows@;
        match &items[j] {
            ConcretizedNavItem::Waypoint { nav_ref } => {
                let key = nav_ref_key(nav_ref);
                let waypoint_occurrence = count_key_listings(items, j, key.as_str());
                rows.push(
                    child_waypoint_row(
                        plan,
                        component,
                        j,
                        waypoint_occurrence,
                        waypoint_index,
                        waypoint_count,
                        nav_ref,
                        overlay,
                        activity,
                    ),
                );
                waypoint_index = waypoint_index + 1;
            },
            ConcretizedNavItem::Discontinuity { discontinuity, label } => {
                rows.push(break_row(plan, component, j, discontinuity, label, overlay, activity));
            },
        }
        assert(rows@.take(base as int) =~= before.take(base as int));
        j = j + 1;
    }
    let ghost added = rows@.skip(start.len() as int);
    reveal(spec_component_rows);
    assert forall|k: int| 1 <= k < added.len() implies spec_item_row(
        *plan,
        *component,
        k - 1,
        overlay,
        activity,
        #[trigger] added[k],
    ) by {
        assert(added[k] == rows@[base + 1 + (k - 1)]);
    }
}

/// The rows of the first `n` components are projected in `rows`.
#[verifier::opaque]
spec fn projected_upto(
    p: FlightPlan,
    cs: Seq<RouteComponentUiView>,
    n: int,
    rows: Seq<FlightPlanDisplayRowUiView>,
    overlay: bool,
    activity: Option<(usize, bool)>,
) -> bool {
    forall|i: int|
        0 <= i < n ==> spec_component_rows(
            p,
            #[trigger] cs[i],
            overlay,
            activity,
            rows.subrange(rows_before(cs, i), rows_before(cs, i + 1)),
        )
}

/// Appending rows keeps the rows of the components already projected.
proof fn lemma_rows_kept(
    p: FlightPlan,
    cs: Seq<RouteComponentUiView>,
    n: int,
    before: Seq<FlightPlanDisplayRowUiView>,
    after: Seq<FlightPlanDisplayRowUiView>,
    overlay: bool,
    activity: Option<(usize, bool)>,
)
    requires
        0 <= n <= cs.len(),
        before.len() == rows_before(cs, n),
        before.len() <= after.len(),
        after.take(before.len() as int) == before,
        projected_upto(p, cs, n, before, overlay, activity),
    ensures
        projected_upto(p, cs, n, after, overlay, activity),
{
    reveal(projected_upto);
    assert forall|i: int| 0 <= i < n implies spec_component_rows(
        p,
        #[trigger] cs[i],
        overlay,
        activity,
        after.subrange(rows_before(cs, i), rows_before(cs, i + 1)),
    ) by {
        lemma_rows_before_monotone(cs, i, i + 1);
        lemma_rows_before_monotone(cs, i + 1, n);
        assert(after.subrange(rows_before(cs, i), rows_before(cs, i + 1)) =~= before.subrange(
            rows_before(cs, i),
            rows_before(cs, i + 1),
        ));
    }
}

/// Appending the rows of the next component extends the projection.
proof fn lemma_rows_added(
    p: FlightPlan,
    cs: Seq<RouteComponentUiView>,
    n: int,
    before: Seq<FlightPlanDisplayRowUiView>,
    after: Seq<FlightPlanDisplayRowUiView>,
    overlay: bool,
    activity: Option<(usize, bool)>,
)
    requires
        0 <= n < cs.len(),
        before.len() == rows_before(cs, n),
        after.len() == rows_before(cs, n + 1),
        after.take(before.len() as int) == before,
        projected_upto(p, cs, n, before, overlay, activity),
        spec_component_rows(p, cs[n], overlay, activity, after.skip(before.len() as int)),
    ensures
        projected_upto(p, cs, n + 1, after, overlay, activity),
{
    lemma_rows_before_monotone(cs, n, n + 1);
    lemma_rows_kept(p, cs, n, before, after, overlay, activity);
    reveal(projected_upto);
    assert(after.subrange(rows_before(cs, n), rows_before(cs, n + 1)) =~= after.skip(
        before.len() as int,
    ));
}

/// `rows` are the display rows of plan `p` with components projected as
/// `cs`: the rows of each component in turn, then the row of the off-plan
/// Direct-To when one is flown.
pub open spec fn spec_display_rows(
    p: FlightPlan,
    cs: Seq<RouteComponentUiView>,
    rows: Seq<FlightPlanDisplayRowUiView>,
) -> bool {
    let overlay = spec_has_direct_to_overlay(p.guidance);
    &&& rows.len() == rows_before(cs, cs.len() as int) + if overlay {
        1int
    } else {
        0int
    }
    &&& forall|i: int|
        0 <= i < cs.len() ==> spec_component_rows(
            p,
            #[trigger] cs[i],
            overlay,
            spec_row_activity(p),
            rows.subrange(rows_before(cs, i), rows_before(cs, i + 1)),
        )
    &&& overlay ==> spec_direct_to_row(p.guidance->0.direct_to->0, rows.last())
}

/// The display rows of a flight plan whose components the view projects as
/// `components`, one per route component: the rows of each component in
/// turn, then the row of an off-plan Direct-To when one is flown.
pub fn project_display_rows(plan: &FlightPlan, components: &[RouteComponentUiView]) -> (r: Vec<
    FlightPlanDisplayRowUiView,
>)
    requires
        details_fit(*plan),
        plan.route_components.len() <= isize::MAX,
    ensures
        spec_display_rows(*plan, components@, r@),
{
    let overlay = flight_plan_has_direct_to_overlay(plan);
    let activity = row_activity(plan);
    let ghost cs = components@;
    let mut rows: Vec<FlightPlanDisplayRowUiView> = Vec::new();
    let mut ci: usize = 0;
    proof {
        reveal(projected_upto);
        lemma_rows_before_step(cs, 0);
    }
    while ci < components.len()
        invariant
            cs == components@,
            plan.route_components.len() <= isize::MAX,
            ci <= cs.len(),
            rows@.len() == rows_before(cs, ci as int),
            projected_upto(*plan, cs, ci as int, rows@, overlay, activity),
        decreases cs.len() - ci,
    {
        let ghost before = rows@;
        let component = &components[ci];
        if component.kind == RouteComponentViewKind::Waypoint {
            push_waypoint_row(plan, component, overlay, activity, &mut rows);
        } else {
            push_group_rows(plan, component, overlay, activity, &mut rows);
        }
        proof {
            assert(rows@.take(before.len() as int) =~= before);
            lemma_rows_before_step(cs, ci as int);
            lemma_rows_added(*plan, cs, ci as int, before, rows@, overlay, activity);
        }
        ci = ci + 1;
    }
    let ghost components_done = rows@;
    if overlay {
        match &plan.guidance {
            Some(g) => match &g.direct_to {
                Some(d) => {
                    rows.push(direct_to_row(d, activity));
                },
                None => {},
            },
            None => {},
        }
        proof {
            assert(rows@.take(components_done.len() as int) =~= components_done);
            lemma_rows_kept(*plan, cs, cs.len() as int, components_done, rows@, overlay, activity);
        }
    }
    proof {
        reveal(projected_upto);
    }
    rows
}

/// Row `k`, among the rows of the first `n` components, belongs to a
/// component `i` before `n`.
proof fn lemma_row_owner(cs: Seq<RouteComponentUiView>, n: int, k: int) -> (i: int)
    requires
        0 <= n <= cs.len(),
        0 <= k < rows_before(cs, n),
    ensures
        0 <= i < n,
        rows_before(cs, i) <= k < rows_before(cs, i + 1),
    decreases n,
{
    lemma_rows_before_step(cs, 0);
    if n == 0 {
        assert(false);
        0
    } else {
        lemma_rows_before_step(cs, n - 1);
        if k >= rows_before(cs, n - 1) {
            n - 1
        } else {
            lemma_row_owner(cs, n - 1, k)
        }
    }
}

/// A row of a component: it shares the component's fields, and its actions
/// are some named menu laid out in final form.
proof fn lemma_plan_row(
    p: FlightPlan,
    cs: Seq<RouteComponentUiView>,
    rows: Seq<FlightPlanDisplayRowUiView>,
    k: int,
) -> (found: (int, Seq<FlightPlanRowActionUiView>))
    requires
        spec_display_rows(p, cs, rows),
        0 <= k < rows_before(cs, cs.len() as int),
    ensures
        0 <= found.0 < cs.len(),
        component_row_common(rows[k], cs[found.0], spec_has_direct_to_overlay(p.guidance)),
        row_matrix_from(rows[k], found.1, spec_has_direct_to_overlay(p.guidance), spec_row_activity(p)),
{
    let overlay = spec_has_direct_to_overlay(p.guidance);
    let activity = spec_row_activity(p);
    let i = lemma_row_owner(cs, cs.len() as int, k);
    let c = cs[i];
    let lo = rows_before(cs, i);
    let hi = rows_before(cs, i + 1);
    lemma_rows_before_monotone(cs, i + 1, cs.len() as int);
    lemma_rows_before_monotone(cs, i, i + 1);
    let sub = rows.subrange(lo, hi);
    assert(spec_component_rows(p, c, overlay, activity, sub));
    reveal(spec_component_rows);
    let j = k - lo;
    assert(sub[j] == rows[k]);
    let r = rows[k];
    if c.kind == RouteComponentViewKind::Waypoint {
        assert(spec_top_row(p, c, overlay, activity, r));
        let (menu, checked, named) = choose|
            menu: Seq<FlightPlanRowActionUiView>,
            checked: Seq<FlightPlanRowActionUiView>,
            named: Seq<FlightPlanRowActionUiView>,
        | top_row_actions(p, c, r, overlay, activity, menu, checked, named);
        (i, named)
    } else if j == 0 {
        assert(spec_group_row(p, c, overlay, activity, r));
        let (menu, checked, named) = choose|
            menu: Seq<FlightPlanRowActionUiView>,
            checked: Seq<FlightPlanRowActionUiView>,
            named: Seq<FlightPlanRowActionUiView>,
        | group_row_actions_from(p, c, r, overlay, activity, menu, checked, named);
        (i, named)
    } else {
        assert(spec_item_row(p, c, j - 1, overlay, activity, sub[j]));
        match c.items@[j - 1] {
            ConcretizedNavItem::Waypoint { nav_ref } => {
                let items = c.items@;
                let wocc = key_listings_before(items, j - 1, spec_nav_ref_key(nav_ref)) as usize;
                let widx = waypoints_before(items, j - 1) as usize;
                let wcount = if c.kind == RouteComponentViewKind::Airway {
                    waypoints_before(items, items.len() as int) as usize
                } else {
                    0
                };
                assert(spec_child_row(
                    p,
                    c,
                    (j - 1) as usize,
                    wocc,
                    widx,
                    wcount,
                    nav_ref,
                    overlay,
                    activity,
                    r,
                ));
                let (menu, named) = choose|
                    menu: Seq<FlightPlanRowActionUiView>,
                    named: Seq<FlightPlanRowActionUiView>,
                | child_row_actions_from(c, r, widx, wcount, overlay, activity, menu, named);
                (i, named)
            },
            ConcretizedNavItem::Discontinuity { discontinuity, label } => {
                assert(spec_break_row(
                    p,
                    c,
                    (j - 1) as usize,
                    discontinuity,
                    label,
                    overlay,
                    activity,
                    r,
                ));
                let (menu, named) = choose|
                    menu: Seq<FlightPlanRowActionUiView>,
                    named: Seq<FlightPlanRowActionUiView>,
                | break_row_actions_from(r, overlay, activity, menu, named);
                (i, named)
            },
        }
    }
}

/// While an off-plan Direct-To is flown, every row of the plan is closed to
/// edits with the reason to restore the plan first, and so is each of its
/// actions; only the last row, the Direct-To's own, stays open.
pub proof fn law_off_plan_direct_to_closes_plan_rows(
    p: FlightPlan,
    cs: Seq<RouteComponentUiView>,
    rows: Seq<FlightPlanDisplayRowUiView>,
    k: int,
)
    requires
        spec_display_rows(p, cs, rows),
        spec_has_direct_to_overlay(p.guidance),
        0 <= k < rows.len() - 1,
    ensures
        !rows[k].enabled,
        opt_text(rows[k].disabled_reason) == Some(OFF_PLAN_DIRECT_TO_EDIT_DISABLED_REASON@),
        forall|a: int, b: int|
            0 <= a < rows[k].action_matrix@.len() && 0 <= b < rows[k].action_matrix@[a]@.len() ==> {
                let action = #[trigger] rows[k].action_matrix@[a]@[b];
                &&& !action.enabled
                &&& opt_text(action.disabled_reason) == Some(
                    OFF_PLAN_DIRECT_TO_EDIT_DISABLED_REASON@,
                )
            },
        rows.last().enabled,
        rows.last().synthetic_direct_to,
        rows.last().active,
        rows.last().uid@ == target_row_id(p.guidance->0.direct_to->0),
        rows.last().nav_ref == Some(p.guidance->0.direct_to->0.target),
{
    let (i, named) = lemma_plan_row(p, cs, rows, k);
    let r = rows[k];
    let m = spec_action_matrix(named);
    let f = matrix_view(r.action_matrix@);
    assert(spec_row_activity(p) is None);
    assert forall|a: int, b: int|
        0 <= a < r.action_matrix@.len() && 0 <= b < r.action_matrix@[a]@.len() implies {
            let action = #[trigger] r.action_matrix@[a]@[b];
            &&& !action.enabled
            &&& opt_text(action.disabled_reason) == Some(OFF_PLAN_DIRECT_TO_EDIT_DISABLED_REASON@)
        } by {
        assert(f[a] == r.action_matrix@[a]@);
        assert(f[a].len() == m[a].len());
        assert(finalized_action(
            m[a][b],
            f[a][b],
            true,
            false,
            r.chart_airport_id,
            r.show_plate_target_id,
        ));
    }
}

/// No row of the active leg offers to activate it again: on the leg's hold
/// row while guidance holds, and on its other rows while it does not,
/// Activate Leg is closed, saying that the leg is already active.
pub proof fn law_active_leg_is_not_offered_again(
    p: FlightPlan,
    cs: Seq<RouteComponentUiView>,
    rows: Seq<FlightPlanDisplayRowUiView>,
    k: int,
)
    requires
        spec_display_rows(p, cs, rows),
        0 <= k < rows.len(),
        already_active(rows[k], spec_row_activity(p)),
    ensures
        forall|a: int, b: int|
            0 <= a < rows[k].action_matrix@.len() && 0 <= b < rows[k].action_matrix@[a]@.len()
                && (#[trigger] rows[k].action_matrix@[a]@[b]).id
                == FlightPlanRowActionId::ActivateLeg ==> {
                let action = rows[k].action_matrix@[a]@[b];
                &&& !action.enabled
                &&& opt_text(action.disabled_reason) == Some(ACTIVE_LEG_DISABLED_REASON@)
            },
{
    let overlay = spec_has_direct_to_overlay(p.guidance);
    if overlay {
        assert(spec_row_activity(p) is None);
    }
    let (i, named) = lemma_plan_row(p, cs, rows, k);
    let r = rows[k];
    let m = spec_action_matrix(named);
    let f = matrix_view(r.action_matrix@);
    assert forall|a: int, b: int|
        0 <= a < r.action_matrix@.len() && 0 <= b < r.action_matrix@[a]@.len() && (
        #[trigger] r.action_matrix@[a]@[b]).id == FlightPlanRowActionId::ActivateLeg implies {
            let action = r.action_matrix@[a]@[b];
            &&& !action.enabled
            &&& opt_text(action.disabled_reason) == Some(ACTIVE_LEG_DISABLED_REASON@)
        } by {
        assert(f[a] == r.action_matrix@[a]@);
        assert(f[a].len() == m[a].len());
        assert(finalized_action(
            m[a][b],
            f[a][b],
            overlay && !r.synthetic_direct_to,
            already_active(r, spec_row_activity(p)),
            r.chart_airport_id,
            r.show_plate_target_id,
        ));
    }
}

} // verus!

verus! {

/// What every row uid of component `c` begins with.
pub open spec fn row_uid_head(c: RouteComponentUiView) -> Seq<char> {
    "component:"@ + c.uid@ + ":"@ + spec_view_kind_name(c.kind)
}

/// What follows the head in the uid of row `j` of component `c`: the
/// waypoint row, the group row, or the row of item `j - 1`.
pub open spec fn row_uid_tail(c: RouteComponentUiView, j: int) -> Seq<char> {
    if c.kind == RouteComponentViewKind::Waypoint {
        ":waypoint"@
    } else if j == 0 {
        ":group"@
    } else {
        match c.items@[j - 1] {
            ConcretizedNavItem::Waypoint { nav_ref } => ":child:"@ + decimal((j - 1) as nat) + ":"@
                + spec_nav_ref_key(nav_ref),
            ConcretizedNavItem::Discontinuity { discontinuity, label } => ":disc:"@ + decimal(
                (j - 1) as nat,
            ) + ":"@ + label@,
        }
    }
}

/// The uid of the row of an item is the component's head and the item's
/// tail.
proof fn lemma_item_row_uid(
    p: FlightPlan,
    c: RouteComponentUiView,
    j: int,
    overlay: bool,
    activity: Option<(usize, bool)>,
    r: FlightPlanDisplayRowUiView,
)
    requires
        c.kind != RouteComponentViewKind::Waypoint,
        1 <= j <= c.items@.len(),
        spec_item_row(p, c, j - 1, overlay, activity, r),
    ensures
        r.uid@ == row_uid_head(c) + row_uid_tail(c, j),
{
    assert(c.items@.len() == c.items.len());
    let o = (j - 1) as usize;
    assert(o as nat == (j - 1) as nat);
    match c.items@[j - 1] {
        ConcretizedNavItem::Waypoint { nav_ref } => {
            assert(r.uid@ == spec_child_waypoint_row_uid(c.uid@, c.kind, (j - 1) as usize, nav_ref));
            assert(r.uid@ =~= row_uid_head(c) + row_uid_tail(c, j));
        },
        ConcretizedNavItem::Discontinuity { discontinuity, label } => {
            assert(r.uid@ == spec_break_row_uid(c, (j - 1) as usize, label@));
            assert(r.uid@ =~= row_uid_head(c) + row_uid_tail(c, j));
        },
    }
}

/// Row `k` of the plan's rows belongs to component `i`, as its row `j`,
/// and its uid is the component's head and that row's tail.
proof fn lemma_row_uid(
    p: FlightPlan,
    cs: Seq<RouteComponentUiView>,
    rows: Seq<FlightPlanDisplayRowUiView>,
    k: int,
) -> (found: (int, int))
    requires
        spec_display_rows(p, cs, rows),
        0 <= k < rows_before(cs, cs.len() as int),
    ensures
        0 <= found.0 < cs.len(),
        found.1 == k - rows_before(cs, found.0),
        cs[found.0].kind == RouteComponentViewKind::Waypoint ==> found.1 == 0,
        0 <= found.1 <= cs[found.0].items@.len(),
        rows[k].uid@ == row_uid_head(cs[found.0]) + row_uid_tail(cs[found.0], found.1),
{
    let overlay = spec_has_direct_to_overlay(p.guidance);
    let activity = spec_row_activity(p);
    let i = lemma_row_owner(cs, cs.len() as int, k);
    let c = cs[i];
    let lo = rows_before(cs, i);
    let hi = rows_before(cs, i + 1);
    lemma_rows_before_monotone(cs, i + 1, cs.len() as int);
    lemma_rows_before_monotone(cs, i, i + 1);
    let sub = rows.subrange(lo, hi);
    assert(spec_component_rows(p, c, overlay, activity, sub));
    reveal(spec_component_rows);
    let j = k - lo;
    assert(sub[j] == rows[k]);
    let r = rows[k];
    let h = row_uid_head(c);
    if c.kind == RouteComponentViewKind::Waypoint {
        assert(spec_top_row(p, c, overlay, activity, r));
        assert(r.uid@ =~= h + row_uid_tail(c, j));
    } else if j == 0 {
        assert(spec_group_row(p, c, overlay, activity, r));
        assert(r.uid@ =~= h + row_uid_tail(c, j));
    } else {
        assert(spec_item_row(p, c, j - 1, overlay, activity, sub[j]));
        lemma_item_row_uid(p, c, j, overlay, activity, r);
    }
    (i, j)
}

/// Two rows of one component with the same uid are the same row.
proof fn lemma_tails_distinct(c: RouteComponentUiView, j1: int, j2: int)
    requires
        0 <= j1 < j2 <= c.items@.len(),
        c.kind != RouteComponentViewKind::Waypoint,
    ensures
        row_uid_tail(c, j1) != row_uid_tail(c, j2),
{
    reveal_strlit(":group");
    reveal_strlit(":child:");
    reveal_strlit(":disc:");
    reveal_strlit(":");
    let t1 = row_uid_tail(c, j1);
    let t2 = row_uid_tail(c, j2);
    if t1 == t2 {
        assert(t1[1] == t2[1]);
        if j1 > 0 {
            match (c.items@[j1 - 1], c.items@[j2 - 1]) {
                (ConcretizedNavItem::Waypoint { nav_ref: a }, ConcretizedNavItem::Waypoint { nav_ref: b }) => {
                    let x = ":"@ + spec_nav_ref_key(a);
                    let y = ":"@ + spec_nav_ref_key(b);
                    assert(t1.skip(7) =~= decimal((j1 - 1) as nat) + seq![':'] + spec_nav_ref_key(a));
                    assert(t2.skip(7) =~= decimal((j2 - 1) as nat) + seq![':'] + spec_nav_ref_key(b));
                    lemma_numeral_prefix((j1 - 1) as nat, (j2 - 1) as nat, spec_nav_ref_key(a), spec_nav_ref_key(b));
                },
                (
                    ConcretizedNavItem::Discontinuity { discontinuity: _, label: a },
                    ConcretizedNavItem::Discontinuity { discontinuity: _, label: b },
                ) => {
                    assert(t1.skip(6) =~= decimal((j1 - 1) as nat) + seq![':'] + a@);
                    assert(t2.skip(6) =~= decimal((j2 - 1) as nat) + seq![':'] + b@);
                    lemma_numeral_prefix((j1 - 1) as nat, (j2 - 1) as nat, a@, b@);
                },
                _ => {},
            }
        }
    }
}

/// The uid of some row of component `c`.
pub open spec fn is_row_uid_of(c: RouteComponentUiView, uid: Seq<char>) -> bool {
    exists|j: int|
        0 <= j <= (if c.kind == RouteComponentViewKind::Waypoint {
            0
        } else {
            c.items@.len() as int
        }) && uid == row_uid_head(c) + #[trigger] row_uid_tail(c, j)
}

/// The rows of a plan whose components have distinct uids of one length
/// have distinct uids, each row of a component its own; the row of an
/// off-plan Direct-To has another uid too, where its target row id is the
/// uid of no component's row.
pub proof fn law_display_row_uids_are_distinct(
    p: FlightPlan,
    cs: Seq<RouteComponentUiView>,
    rows: Seq<FlightPlanDisplayRowUiView>,
)
    requires
        spec_display_rows(p, cs, rows),
        forall|a: int, b: int| 0 <= a < b < cs.len() ==> (#[trigger] cs[a]).uid@ != (#[trigger] cs[b]).uid@,
        forall|a: int, b: int|
            0 <= a < cs.len() && 0 <= b < cs.len() ==> (#[trigger] cs[a]).uid@.len() == (
            #[trigger] cs[b]).uid@.len(),
        spec_has_direct_to_overlay(p.guidance) ==> forall|i: int|
            0 <= i < cs.len() ==> !is_row_uid_of(#[trigger] cs[i], target_row_id(p.guidance->0.direct_to->0)),
    ensures
        forall|a: int, b: int| 0 <= a < b < rows.len() ==> (#[trigger] rows[a]).uid@ != (#[trigger] rows[b]).uid@,
{
    reveal_strlit("component:");
    let n = rows_before(cs, cs.len() as int);
    assert forall|a: int, b: int| 0 <= a < b < rows.len() implies (#[trigger] rows[a]).uid@
        != (#[trigger] rows[b]).uid@ by {
        if b < n {
            let (i1, j1) = lemma_row_uid(p, cs, rows, a);
            let (i2, j2) = lemma_row_uid(p, cs, rows, b);
            let c1 = cs[i1];
            let c2 = cs[i2];
            let s1 = rows[a].uid@;
            let s2 = rows[b].uid@;
            if s1 == s2 {
                let l = c1.uid@.len() as int;
                assert(s1.subrange(10, 10 + l) =~= c1.uid@);
                assert(s2.subrange(10, 10 + l) =~= c2.uid@);
                assert(i1 == i2);
                let h = row_uid_head(c1);
                assert(s1.skip(h.len() as int) =~= row_uid_tail(c1, j1));
                assert(s2.skip(h.len() as int) =~= row_uid_tail(c1, j2));
                lemma_rows_before_monotone(cs, i1, i1);
                lemma_tails_distinct(c1, j1, j2);
            }
        } else {
            let (i1, j1) = lemma_row_uid(p, cs, rows, a);
            assert(b == rows.len() - 1);
            assert(row_uid_tail(cs[i1], j1) == row_uid_tail(cs[i1], j1));
            assert(!is_row_uid_of(cs[i1], target_row_id(p.guidance->0.direct_to->0)));
        }
    }
}

} // verus!

verus! {

/// A leg that a search over the plan's legs finds, as a row's leg.
pub open spec fn leg_of_plan(p: FlightPlan, l: Option<usize>) -> bool {
    l matches Some(t) ==> t < p.resolved_legs.len()
}

proof fn lemma_child_row_leg(p: FlightPlan, c: int, item: int, occurrence: int, n: NavRef)
    ensures
        spec_child_row_leg(p, c, item, occurrence, n) matches Some(k) ==> 0 <= k < p.resolved_legs.len(),
{
    lemma_nth_leg_to_range(p.resolved_legs@, c, n, occurrence, 0);
    lemma_first_leg_of_range(p.resolved_legs@, c, 0);
}

proof fn lemma_item_row_leg(
    p: FlightPlan,
    c: RouteComponentUiView,
    j: int,
    overlay: bool,
    activity: Option<(usize, bool)>,
    r: FlightPlanDisplayRowUiView,
)
    requires
        0 <= j < c.items@.len(),
        spec_item_row(p, c, j, overlay, activity, r),
    ensures
        leg_of_plan(p, r.leg_index),
{
    assert(p.resolved_legs@.len() == p.resolved_legs.len());
    let items = c.items@;
    match items[j] {
        ConcretizedNavItem::Waypoint { nav_ref } => {
            let wi = waypoints_before(items, j) as usize;
            let wo = key_listings_before(items, j, spec_nav_ref_key(nav_ref)) as usize;
            lemma_child_row_leg(p, c.component_index as int, wi as int, wo as int, nav_ref);
            assert(r.leg_index == opt_index(
                spec_child_row_leg(p, c.component_index as int, wi as int, wo as int, nav_ref),
            ));
        },
        ConcretizedNavItem::Discontinuity { discontinuity, label } => {
            lemma_last_leg_of_component(
                p.resolved_legs@,
                c.component_index as int,
                p.resolved_legs.len() as int,
            );
            assert(r.leg_index == spec_break_row_leg(p, c.component_index as int, discontinuity));
        },
    }
}

/// Every row of a plan that a leg ends at names a leg of the plan.
pub proof fn law_row_legs_are_legs_of_the_plan(
    p: FlightPlan,
    cs: Seq<RouteComponentUiView>,
    rows: Seq<FlightPlanDisplayRowUiView>,
)
    requires
        spec_display_rows(p, cs, rows),
    ensures
        forall|k: int| 0 <= k < rows.len() ==> leg_of_plan(p, (#[trigger] rows[k]).leg_index),
{
    let overlay = spec_has_direct_to_overlay(p.guidance);
    let activity = spec_row_activity(p);
    let n = rows_before(cs, cs.len() as int);
    assert(p.resolved_legs@.len() == p.resolved_legs.len());
    assert forall|k: int| 0 <= k < rows.len() implies leg_of_plan(p, (#[trigger] rows[k]).leg_index) by {
        if k < n {
            let i = lemma_row_owner(cs, cs.len() as int, k);
            let c = cs[i];
            let lo = rows_before(cs, i);
            let hi = rows_before(cs, i + 1);
            lemma_rows_before_monotone(cs, i + 1, cs.len() as int);
            lemma_rows_before_monotone(cs, i, i + 1);
            let sub = rows.subrange(lo, hi);
            assert(spec_component_rows(p, c, overlay, activity, sub));
            reveal(spec_component_rows);
            let j = k - lo;
            assert(sub[j] == rows[k]);
            if c.kind == RouteComponentViewKind::Waypoint {
                assert(spec_top_row(p, c, overlay, activity, rows[k]));
                lemma_first_leg_reaching_range(
                    p.resolved_legs@,
                    p.route_components@[c.component_index as int]->waypoint,
                    c.component_index as int,
                    0,
                );
            } else if j == 0 {
                assert(spec_group_row(p, c, overlay, activity, rows[k]));
            } else {
                assert(spec_item_row(p, c, j - 1, overlay, activity, sub[j]));
                lemma_item_row_leg(p, c, j - 1, overlay, activity, rows[k]);
            }
        } else {
            assert(k == rows.len() - 1);
        }
    }
}

} // verus!
