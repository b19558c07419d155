//! Display rows of the flight plan and the menus that each row offers.
use crate::nav::{nav_ref_key, spec_nav_ref_key, NavRef};
use crate::route::{ConcretizedNavItem, ProcedureKind, RouteComponentViewKind};
use crate::row_actions::{
    action, action_in_menu_column, core_session_action,
    core_session_action_with_disabled_reason, flatten_actions, matrix_view, move_action,
    procedure_action, reorder_action, session_action, session_action_because,
    set_flight_plan_row_action_enabled, standard_action, ui_action, action_shape,
    spec_disabled_reason_text, opt_text, FlightPlanRowActionExecution, FlightPlanRowActionId,
    FlightPlanRowActionUiView, FlightPlanRowNavigationAction,
    AIRWAY_ENDPOINT_REMOVE_DISABLED_REASON, AIRWAY_REMOVE_DISABLED_REASON,
    PROCEDURE_REMOVE_DISABLED_REASON, WAYPOINT_REMOVE_DISABLED_REASON,
};
use crate::text::{decimal, owned, push_decimal, push_str};
use vstd::prelude::*;

verus! {

/// What a display row shows.
#[derive(Clone, Copy, Debug, PartialEq, Eq, Structural)]
pub enum FlightPlanDisplayRowKind {
    Waypoint,
    Group,
    Discontinuity,
    Summary,
}

/// The weather badge of a row.
#[derive(Clone, Debug, PartialEq, Eq)]
pub struct FlightPlanWeatherBadgeUiView {
    pub flight_category: String,
    pub ceiling_amount: String,
}

/// One row of the flight plan as the pilot sees it.
#[derive(Clone, Debug, PartialEq, Eq)]
pub struct FlightPlanDisplayRowUiView {
    pub uid: String,
    pub label: String,
    pub row_kind: FlightPlanDisplayRowKind,
    pub component_kind: Option<RouteComponentViewKind>,
    pub component_uid: Option<String>,
    pub component_index: Option<usize>,
    pub procedure_id: Option<String>,
    pub procedure_kind: Option<ProcedureKind>,
    pub leg_index: Option<usize>,
    pub show_plate_target_id: Option<String>,
    pub chart_airport_id: Option<String>,
    pub nav_ref: Option<NavRef>,
    pub weather_badge: Option<FlightPlanWeatherBadgeUiView>,
    pub depth: usize,
    pub active: bool,
    pub enabled: bool,
    pub disabled_reason: Option<String>,
    pub synthetic_direct_to: bool,
    pub can_add_airway_after: bool,
    pub can_add_procedure_before: bool,
    pub can_remove_component: bool,
    pub can_reorder_component: bool,
    pub can_reorder_up: bool,
    pub can_reorder_down: bool,
    pub origin_anchor: Option<NavRef>,
    pub destination_anchor: Option<NavRef>,
    pub preceding_waypoint: Option<NavRef>,
    pub following_waypoint: Option<NavRef>,
    pub action_matrix: Vec<Vec<FlightPlanRowActionUiView>>,
}

/// A route component as the flight-plan view projects it.
#[derive(Clone, Debug, PartialEq, Eq)]
pub struct RouteComponentUiView {
    pub uid: String,
    pub component_index: usize,
    pub kind: RouteComponentViewKind,
    pub summary: String,
    pub procedure_id: Option<String>,
    pub procedure_kind: Option<ProcedureKind>,
    pub chart_airport_id: Option<String>,
    pub nav_ref: Option<NavRef>,
    pub items: Vec<ConcretizedNavItem>,
    pub active: bool,
    pub can_add_airway_after: bool,
    pub can_add_procedure_before: bool,
    pub can_remove: bool,
    pub can_reorder: bool,
    pub can_reorder_up: bool,
    pub can_reorder_down: bool,
    pub replace_procedure_component_index: Option<usize>,
    pub preceding_waypoint: Option<NavRef>,
    pub following_waypoint: Option<NavRef>,
}

/// Every action of a row, in menu order.
pub fn flight_plan_row_actions(row: &FlightPlanDisplayRowUiView) -> (r: Vec<
    FlightPlanRowActionUiView,
>)
    ensures
        r@ == flatten_actions(matrix_view(row.action_matrix@)),
{
    let mut r: Vec<FlightPlanRowActionUiView> = Vec::new();
    let mut i: usize = 0;
    while i < row.action_matrix.len()
        invariant
            i <= row.action_matrix@.len(),
            r@ == flatten_actions(matrix_view(row.action_matrix@.take(i as int))),
        decreases row.action_matrix@.len() - i,
    {
        let line = &row.action_matrix[i];
        let ghost before = r@;
        let mut j: usize = 0;
        while j < line.len()
            invariant
                j <= line@.len(),
                r@ == before + line@.take(j as int),
            decreases line@.len() - j,
        {
            r.push(line[j].duplicate());
            assert(line@.take(j + 1) =~= line@.take(j as int).push(line@[j as int]));
            assert(r@ =~= before + line@.take(j + 1));
            j = j + 1;
        }
        assert(line@.take(line@.len() as int) =~= line@);
        assert(matrix_view(row.action_matrix@.take(i + 1)).drop_last() =~= matrix_view(
            row.action_matrix@.take(i as int),
        ));
        assert(matrix_view(row.action_matrix@.take(i + 1)).last() == line@);
        i = i + 1;
    }
    assert(row.action_matrix@.take(row.action_matrix@.len() as int) =~= row.action_matrix@);
    r
}

/// The navigation that an action gets from its row: Plates opens the row's
/// airport charts, Show Plate opens the row's plate when the row has both an
/// airport and a plate, and no other action navigates.
pub open spec fn spec_row_navigation(
    id: FlightPlanRowActionId,
    chart_airport_id: Option<String>,
    show_plate_target_id: Option<String>,
) -> Option<FlightPlanRowNavigationAction> {
    match id {
        FlightPlanRowActionId::Plates => match chart_airport_id {
            Some(airport_id) => Some(
                FlightPlanRowNavigationAction::OpenAirportCharts { airport_id },
            ),
            None => None,
        },
        FlightPlanRowActionId::ShowPlate => match (chart_airport_id, show_plate_target_id) {
            (Some(airport_id), Some(target)) => Some(
                FlightPlanRowNavigationAction::OpenPlateTarget { airport_id, target },
            ),
            _ => None,
        },
        _ => None,
    }
}

/// `b` is `a` with its reason made consistent with its enablement and its
/// navigation taken from the row.
pub open spec fn refreshed_action(
    a: FlightPlanRowActionUiView,
    b: FlightPlanRowActionUiView,
    chart_airport_id: Option<String>,
    show_plate_target_id: Option<String>,
) -> bool {
    &&& b.id == a.id
    &&& b.uid == a.uid
    &&& b.menu_column == a.menu_column
    &&& b.label == a.label
    &&& b.enabled == a.enabled
    &&& b.execution == a.execution
    &&& b.dismiss_tray_on_success == a.dismiss_tray_on_success
    &&& b.airport_info_airport_id == a.airport_info_airport_id
    &&& b.procedure_kind == a.procedure_kind
    &&& b.navigation == spec_row_navigation(a.id, chart_airport_id, show_plate_target_id)
    &&& if a.enabled {
        b.disabled_reason is None
    } else if a.disabled_reason is Some {
        b.disabled_reason == a.disabled_reason
    } else {
        opt_text(b.disabled_reason) == Some(spec_disabled_reason_text(a.id))
    }
}

/// `b` is `a` with only its action matrix changed.
pub open spec fn same_row_but_actions(a: FlightPlanDisplayRowUiView, b: FlightPlanDisplayRowUiView) -> bool {
    b == FlightPlanDisplayRowUiView { action_matrix: b.action_matrix, ..a }
}

fn refresh_action(
    a: &FlightPlanRowActionUiView,
    chart_airport_id: &Option<String>,
    show_plate_target_id: &Option<String>,
) -> (r: FlightPlanRowActionUiView)
    ensures
        refreshed_action(*a, r, *chart_airport_id, *show_plate_target_id),
{
    let mut b = a.duplicate();
    let enabled = b.enabled;
    set_flight_plan_row_action_enabled(&mut b, enabled);
    b.navigation = match a.id {
        FlightPlanRowActionId::Plates => match chart_airport_id {
            Some(airport_id) => Some(
                FlightPlanRowNavigationAction::OpenAirportCharts { airport_id: airport_id.clone() },
            ),
            None => None,
        },
        FlightPlanRowActionId::ShowPlate => match (chart_airport_id, show_plate_target_id) {
            (Some(airport_id), Some(target)) => Some(
                FlightPlanRowNavigationAction::OpenPlateTarget {
                    airport_id: airport_id.clone(),
                    target: target.clone(),
                },
            ),
            _ => None,
        },
        _ => None,
    };
    b
}

/// Makes each action's reason consistent with its enablement, and points
/// Plates and Show Plate at the row's airport and plate.
pub fn refresh_flight_plan_row_action_navigation(row: &mut FlightPlanDisplayRowUiView)
    ensures
        same_row_but_actions(*old(row), *final(row)),
        final(row).action_matrix@.len() == old(row).action_matrix@.len(),
        forall|i: int| 0 <= i < final(row).action_matrix@.len() ==> #[trigger] final(row).action_matrix@[i]@.len() == old(row).action_matrix@[i]@.len(),
        forall|i: int, j: int| 0 <= i < final(row).action_matrix@.len() && 0 <= j < final(row).action_matrix@[i]@.len() ==> refreshed_action(old(row).action_matrix@[i]@[j], #[trigger] final(row).action_matrix@[i]@[j], old(row).chart_airport_id, old(row).show_plate_target_id),
{
    let mut matrix: Vec<Vec<FlightPlanRowActionUiView>> = Vec::new();
    let mut i: usize = 0;
    while i < row.action_matrix.len()
        invariant
            i <= row.action_matrix@.len(),
            matrix@.len() == i,
            forall|k: int| 0 <= k < i ==> #[trigger] matrix@[k]@.len() == row.action_matrix@[k]@.len(),
            forall|k: int, j: int|
                0 <= k < i && 0 <= j < matrix@[k]@.len() ==> refreshed_action(
                    row.action_matrix@[k]@[j],
                    #[trigger] matrix@[k]@[j],
                    row.chart_airport_id,
                    row.show_plate_target_id,
                ),
        decreases row.action_matrix@.len() - i,
    {
        let line = &row.action_matrix[i];
        let mut new_line: Vec<FlightPlanRowActionUiView> = Vec::new();
        let mut j: usize = 0;
        while j < line.len()
            invariant
                j <= line@.len(),
                new_line@.len() == j,
                forall|m: int|
                    0 <= m < j ==> refreshed_action(
                        line@[m],
                        #[trigger] new_line@[m],
                        row.chart_airport_id,
                        row.show_plate_target_id,
                    ),
            decreases line@.len() - j,
        {
            new_line.push(refresh_action(&line[j], &row.chart_airport_id, &row.show_plate_target_id));
            j = j + 1;
        }
        matrix.push(new_line);
        i = i + 1;
    }
    row.action_matrix = matrix;
}

/// The menu of an airway or procedure group row: insertion, reordering and
/// removal for an airway; insertion, removal and Show Plate for a procedure.
pub open spec fn group_row_menu(c: RouteComponentUiView, r: Seq<FlightPlanRowActionUiView>) -> bool {
    match c.kind {
        RouteComponentViewKind::Airway => {
            &&& r.len() == 6
            &&& ui_action(r[0], FlightPlanRowActionId::InsertBefore, true)
            &&& reorder_action(r[1], FlightPlanRowActionId::MoveUp, c.can_reorder_up)
            &&& ui_action(r[2], FlightPlanRowActionId::InsertAfter, true)
            &&& reorder_action(r[3], FlightPlanRowActionId::MoveDown, c.can_reorder_down)
            &&& spec_remove_airway_action(r[4], c)
            &&& session_action(r[5], FlightPlanRowActionId::RemoveAllAbove, true)
        },
        RouteComponentViewKind::Procedure => {
            &&& r.len() == 5
            &&& ui_action(r[0], FlightPlanRowActionId::InsertBefore, true)
            &&& ui_action(r[1], FlightPlanRowActionId::InsertAfter, true)
            &&& spec_remove_procedure_action(r[2], c)
            &&& session_action(r[3], FlightPlanRowActionId::RemoveAllAbove, true)
            &&& standard_action(
                r[4],
                FlightPlanRowActionId::ShowPlate,
                c.chart_airport_id is Some && c.procedure_id is Some,
                FlightPlanRowActionExecution::UiController,
                true,
                1,
                None,
            )
        },
        RouteComponentViewKind::Waypoint => r.len() == 0,
    }
}

/// The menu of an airway or procedure group row.
pub fn group_row_actions(component: &RouteComponentUiView) -> (r: Vec<FlightPlanRowActionUiView>)
    ensures
        group_row_menu(*component, r@),
{
    match component.kind {
        RouteComponentViewKind::Airway => {
            let mut r = Vec::new();
            r.push(action(FlightPlanRowActionId::InsertBefore, true));
            r.push(move_action(FlightPlanRowActionId::MoveUp, component.can_reorder_up));
            r.push(action(FlightPlanRowActionId::InsertAfter, true));
            r.push(move_action(FlightPlanRowActionId::MoveDown, component.can_reorder_down));
            r.push(remove_airway_action(component));
            r.push(core_session_action(FlightPlanRowActionId::RemoveAllAbove, true));
            r
        },
        RouteComponentViewKind::Procedure => {
            let mut r = Vec::new();
            r.push(action(FlightPlanRowActionId::InsertBefore, true));
            r.push(action(FlightPlanRowActionId::InsertAfter, true));
            r.push(remove_procedure_action(component));
            r.push(core_session_action(FlightPlanRowActionId::RemoveAllAbove, true));
            r.push(
                action_in_menu_column(
                    FlightPlanRowActionId::ShowPlate,
                    component.chart_airport_id.is_some() && component.procedure_id.is_some(),
                    1,
                ),
            );
            r
        },
        RouteComponentViewKind::Waypoint => Vec::new(),
    }
}

/// The Remove action of an airway group.
pub open spec fn spec_remove_airway_action(a: FlightPlanRowActionUiView, c: RouteComponentUiView) -> bool {
    action_shape(
        a,
        FlightPlanRowActionId::Remove,
        "Remove Airway"@,
        c.can_remove,
        if c.can_remove {
            None
        } else {
            Some(AIRWAY_REMOVE_DISABLED_REASON@)
        },
        FlightPlanRowActionExecution::CoreSession,
        true,
        0,
        None,
    )
}

/// Removes an airway group, when the route allows it.
pub fn remove_airway_action(component: &RouteComponentUiView) -> (r: FlightPlanRowActionUiView)
    ensures
        spec_remove_airway_action(r, *component),
{
    let mut a = core_session_action_with_disabled_reason(
        FlightPlanRowActionId::Remove,
        component.can_remove,
        AIRWAY_REMOVE_DISABLED_REASON,
    );
    a.label = owned("Remove Airway");
    a
}

/// The removal label of a procedure kind.
pub open spec fn spec_remove_procedure_label(kind: Option<ProcedureKind>) -> Seq<char> {
    match kind {
        Some(ProcedureKind::Sid) => "Remove Departure"@,
        Some(ProcedureKind::Star) => "Remove Arrival"@,
        Some(ProcedureKind::Approach) => "Remove Approach"@,
        None => "Remove Procedure"@,
    }
}

/// The Remove Procedure action of a procedure group.
pub open spec fn spec_remove_procedure_action(a: FlightPlanRowActionUiView, c: RouteComponentUiView) -> bool {
    action_shape(
        a,
        FlightPlanRowActionId::RemoveProcedure,
        spec_remove_procedure_label(c.procedure_kind),
        c.can_remove,
        if c.can_remove {
            None
        } else {
            Some(PROCEDURE_REMOVE_DISABLED_REASON@)
        },
        FlightPlanRowActionExecution::CoreSession,
        true,
        0,
        None,
    )
}

/// Removes a procedure group, labelled by the procedure's kind.
pub fn remove_procedure_action(component: &RouteComponentUiView) -> (r: FlightPlanRowActionUiView)
    ensures
        spec_remove_procedure_action(r, *component),
{
    let mut a = core_session_action_with_disabled_reason(
        FlightPlanRowActionId::RemoveProcedure,
        component.can_remove,
        PROCEDURE_REMOVE_DISABLED_REASON,
    );
    let label = match component.procedure_kind {
        Some(ProcedureKind::Sid) => "Remove Departure",
        Some(ProcedureKind::Star) => "Remove Arrival",
        Some(ProcedureKind::Approach) => "Remove Approach",
        None => "Remove Procedure",
    };
    a.label = owned(label);
    a
}

/// The menu of a top-level waypoint row.
pub open spec fn top_level_waypoint_menu(
    r: Seq<FlightPlanRowActionUiView>,
    leg_index: Option<usize>,
    has_nav_ref: bool,
    can_add_airway_after: bool,
    can_add_procedure_before: bool,
    can_select_departure: bool,
    is_destination_airport: bool,
    can_remove_component: bool,
    can_reorder_up: bool,
    can_reorder_down: bool,
    has_component: bool,
    has_chart_airport: bool,
    has_origin_anchor: bool,
) -> bool {
    &&& r.len() == 15
    &&& session_action(r[0], FlightPlanRowActionId::ActivateLeg, leg_index is Some)
    &&& session_action(r[1], FlightPlanRowActionId::DirectTo, has_nav_ref)
    &&& session_action_because(
        r[2],
        FlightPlanRowActionId::Remove,
        has_component && can_remove_component,
        WAYPOINT_REMOVE_DISABLED_REASON@,
    )
    &&& session_action(r[3], FlightPlanRowActionId::RemoveAllAbove, has_component)
    &&& ui_action(r[4], FlightPlanRowActionId::InsertBefore, has_component)
    &&& ui_action(r[5], FlightPlanRowActionId::InsertAfter, has_component)
    &&& reorder_action(r[6], FlightPlanRowActionId::MoveUp, can_reorder_up)
    &&& reorder_action(r[7], FlightPlanRowActionId::MoveDown, can_reorder_down)
    &&& ui_action(r[8], FlightPlanRowActionId::WaypointInfo, false)
    &&& ui_action(r[9], FlightPlanRowActionId::Weather, false)
    &&& ui_action(
        r[10],
        FlightPlanRowActionId::AddAirway,
        can_add_airway_after && has_origin_anchor,
    )
    &&& standard_action(
        r[11],
        FlightPlanRowActionId::SelectDeparture,
        can_select_departure && has_component,
        FlightPlanRowActionExecution::UiController,
        true,
        0,
        Some(ProcedureKind::Sid),
    )
    &&& standard_action(
        r[12],
        FlightPlanRowActionId::SelectArrival,
        can_add_procedure_before && is_destination_airport && has_component,
        FlightPlanRowActionExecution::UiController,
        true,
        0,
        Some(ProcedureKind::Star),
    )
    &&& standard_action(
        r[13],
        FlightPlanRowActionId::SelectApproach,
        can_add_procedure_before && is_destination_airport && has_component,
        FlightPlanRowActionExecution::UiController,
        true,
        0,
        Some(ProcedureKind::Approach),
    )
    &&& ui_action(r[14], FlightPlanRowActionId::Plates, has_chart_airport)
}

/// The menu of a waypoint row: the full menu at the top level, Activate Leg
/// and Direct-To inside a group, nothing for other rows.
#[allow(clippy::too_many_arguments)]
pub fn waypoint_actions_for_row(
    row_kind: FlightPlanDisplayRowKind,
    depth: usize,
    leg_index: Option<usize>,
    nav_ref: Option<&NavRef>,
    can_add_airway_after: bool,
    can_add_procedure_before: bool,
    can_select_departure: bool,
    is_destination_airport: bool,
    can_remove_component: bool,
    can_reorder_up: bool,
    can_reorder_down: bool,
    component_index: Option<usize>,
    chart_airport_id: Option<&String>,
    origin_anchor: Option<&NavRef>,
) -> (r: Vec<FlightPlanRowActionUiView>)
    ensures
        row_kind != FlightPlanDisplayRowKind::Waypoint ==> r@.len() == 0,
        row_kind == FlightPlanDisplayRowKind::Waypoint && depth == 0 ==> top_level_waypoint_menu(
            r@,
            leg_index,
            nav_ref is Some,
            can_add_airway_after,
            can_add_procedure_before,
            can_select_departure,
            is_destination_airport,
            can_remove_component,
            can_reorder_up,
            can_reorder_down,
            component_index is Some,
            chart_airport_id is Some,
            origin_anchor is Some,
        ),
        row_kind == FlightPlanDisplayRowKind::Waypoint && depth != 0 ==> {
            &&& r@.len() == 2
            &&& session_action(r@[0], FlightPlanRowActionId::ActivateLeg, leg_index is Some)
            &&& session_action(r@[1], FlightPlanRowActionId::DirectTo, nav_ref is Some)
        },
{
    if row_kind != FlightPlanDisplayRowKind::Waypoint {
        return Vec::new();
    }
    let mut r = Vec::new();
    r.push(core_session_action(FlightPlanRowActionId::ActivateLeg, leg_index.is_some()));
    r.push(core_session_action(FlightPlanRowActionId::DirectTo, nav_ref.is_some()));
    if depth != 0 {
        return r;
    }
    let has_component = component_index.is_some();
    r.push(
        core_session_action_with_disabled_reason(
            FlightPlanRowActionId::Remove,
            has_component && can_remove_component,
            WAYPOINT_REMOVE_DISABLED_REASON,
        ),
    );
    r.push(core_session_action(FlightPlanRowActionId::RemoveAllAbove, has_component));
    r.push(action(FlightPlanRowActionId::InsertBefore, has_component));
    r.push(action(FlightPlanRowActionId::InsertAfter, has_component));
    r.push(move_action(FlightPlanRowActionId::MoveUp, can_reorder_up));
    r.push(move_action(FlightPlanRowActionId::MoveDown, can_reorder_down));
    r.push(action(FlightPlanRowActionId::WaypointInfo, false));
    r.push(action(FlightPlanRowActionId::Weather, false));
    r.push(
        action(FlightPlanRowActionId::AddAirway, can_add_airway_after && origin_anchor.is_some()),
    );
    r.push(
        procedure_action(
            FlightPlanRowActionId::SelectDeparture,
            ProcedureKind::Sid,
            can_select_departure && has_component,
        ),
    );
    r.push(
        procedure_action(
            FlightPlanRowActionId::SelectArrival,
            ProcedureKind::Star,
            can_add_procedure_before && is_destination_airport && has_component,
        ),
    );
    r.push(
        procedure_action(
            FlightPlanRowActionId::SelectApproach,
            ProcedureKind::Approach,
            can_add_procedure_before && is_destination_airport && has_component,
        ),
    );
    r.push(action(FlightPlanRowActionId::Plates, chart_airport_id.is_some()));
    r
}

/// The menu of a waypoint listed inside a group: Activate Leg and
/// Direct-To, and, inside an airway, Remove for its endpoints.
pub open spec fn child_waypoint_menu(
    r: Seq<FlightPlanRowActionUiView>,
    component_kind: RouteComponentViewKind,
    leg_index: Option<usize>,
    has_nav_ref: bool,
    waypoint_index: usize,
    waypoint_count: usize,
) -> bool {
    &&& r.len() >= 2
    &&& session_action(r[0], FlightPlanRowActionId::ActivateLeg, leg_index is Some)
    &&& session_action(r[1], FlightPlanRowActionId::DirectTo, has_nav_ref)
    &&& if component_kind == RouteComponentViewKind::Airway {
        &&& r.len() == 3
        &&& session_action_because(
            r[2],
            FlightPlanRowActionId::Remove,
            waypoint_index == 0 || waypoint_index + 1 == waypoint_count,
            AIRWAY_ENDPOINT_REMOVE_DISABLED_REASON@,
        )
    } else {
        r.len() == 2
    }
}

/// The menu of a waypoint inside a group: Activate Leg and Direct-To, and,
/// inside an airway, Remove for the airway's first and last waypoints only.
pub fn child_waypoint_actions_for_row(
    row_kind: FlightPlanDisplayRowKind,
    component_kind: RouteComponentViewKind,
    leg_index: Option<usize>,
    nav_ref: Option<&NavRef>,
    waypoint_index: usize,
    waypoint_count: usize,
) -> (r: Vec<FlightPlanRowActionUiView>)
    ensures
        row_kind != FlightPlanDisplayRowKind::Waypoint ==> r@.len() == 0,
        row_kind == FlightPlanDisplayRowKind::Waypoint ==> child_waypoint_menu(
            r@,
            component_kind,
            leg_index,
            nav_ref is Some,
            waypoint_index,
            waypoint_count,
        ),
{
    if row_kind != FlightPlanDisplayRowKind::Waypoint {
        return Vec::new();
    }
    let mut r = Vec::new();
    r.push(core_session_action(FlightPlanRowActionId::ActivateLeg, leg_index.is_some()));
    r.push(core_session_action(FlightPlanRowActionId::DirectTo, nav_ref.is_some()));
    if component_kind == RouteComponentViewKind::Airway {
        let is_endpoint = waypoint_index == 0 || (waypoint_index < usize::MAX && waypoint_index + 1
            == waypoint_count);
        r.push(
            core_session_action_with_disabled_reason(
                FlightPlanRowActionId::Remove,
                is_endpoint,
                AIRWAY_ENDPOINT_REMOVE_DISABLED_REASON,
            ),
        );
    }
    r
}

/// The variant name of a component kind, as `{:?}` writes it.
pub open spec fn spec_view_kind_name(kind: RouteComponentViewKind) -> Seq<char> {
    match kind {
        RouteComponentViewKind::Waypoint => "Waypoint"@,
        RouteComponentViewKind::Airway => "Airway"@,
        RouteComponentViewKind::Procedure => "Procedure"@,
    }
}

/// The variant name of a component kind.
pub fn view_kind_name(kind: RouteComponentViewKind) -> (r: &'static str)
    ensures
        r@ == spec_view_kind_name(kind),
{
    match kind {
        RouteComponentViewKind::Waypoint => "Waypoint",
        RouteComponentViewKind::Airway => "Airway",
        RouteComponentViewKind::Procedure => "Procedure",
    }
}

/// `component:{uid}:{Kind}:waypoint`.
pub open spec fn spec_top_level_waypoint_row_uid(c: RouteComponentUiView) -> Seq<char> {
    "component:"@ + c.uid@ + ":"@ + spec_view_kind_name(c.kind) + ":waypoint"@
}

/// The uid of the row of a top-level waypoint component.
pub fn top_level_waypoint_row_uid(component: &RouteComponentUiView, leg_index: Option<usize>) -> (r:
    String)
    ensures
        r@ == spec_top_level_waypoint_row_uid(*component),
{
    let mut s = owned("component:");
    push_str(&mut s, component.uid.as_str());
    push_str(&mut s, ":");
    push_str(&mut s, view_kind_name(component.kind));
    push_str(&mut s, ":waypoint");
    s
}

/// `component:{uid}:{Kind}:child:{occurrence}:{nav key}`.
pub open spec fn spec_child_waypoint_row_uid(
    component_uid: Seq<char>,
    kind: RouteComponentViewKind,
    occurrence: usize,
    nav_ref: NavRef,
) -> Seq<char> {
    "component:"@ + component_uid + ":"@ + spec_view_kind_name(kind) + ":child:"@ + decimal(
        occurrence as nat,
    ) + ":"@ + spec_nav_ref_key(nav_ref)
}

/// The uid of the row of a waypoint inside a group component.
pub fn child_waypoint_row_uid(
    component_uid: &str,
    kind: RouteComponentViewKind,
    occurrence: usize,
    nav_ref: &NavRef,
    leg_index: Option<usize>,
) -> (r: String)
    ensures
        r@ == spec_child_waypoint_row_uid(component_uid@, kind, occurrence, *nav_ref),
{
    let mut s = owned("component:");
    push_str(&mut s, component_uid);
    push_str(&mut s, ":");
    push_str(&mut s, view_kind_name(kind));
    push_str(&mut s, ":child:");
    push_decimal(&mut s, occurrence as u64);
    push_str(&mut s, ":");
    let key = nav_ref_key(nav_ref);
    push_str(&mut s, key.as_str());
    s
}

/// The first waypoint among a component's items.
pub open spec fn first_waypoint(items: Seq<ConcretizedNavItem>) -> Option<NavRef>
    decreases items.len(),
{
    if items.len() == 0 {
        None
    } else {
        match items[0] {
            ConcretizedNavItem::Waypoint { nav_ref } => Some(nav_ref),
            ConcretizedNavItem::Discontinuity { .. } => first_waypoint(items.drop_first()),
        }
    }
}

/// The first waypoint that a projected component lists.
pub fn projected_component_waypoint_nav_ref(component: &RouteComponentUiView) -> (r: Option<NavRef>)
    ensures
        r == first_waypoint(component.items@),
{
    let mut i: usize = 0;
    assert(component.items@.skip(0) =~= component.items@);
    while i < component.items.len()
        invariant
            i <= component.items@.len(),
            first_waypoint(component.items@) == first_waypoint(component.items@.skip(i as int)),
        decreases component.items@.len() - i,
    {
        assert(component.items@.skip(i as int)[0] == component.items@[i as int]);
        match &component.items[i] {
            ConcretizedNavItem::Waypoint { nav_ref } => {
                return Some(nav_ref.duplicate());
            },
            ConcretizedNavItem::Discontinuity { .. } => {
                assert(component.items@.skip(i as int).drop_first() =~= component.items@.skip(
                    i + 1,
                ));
            },
        }
        i = i + 1;
    }
    None
}

/// The label of a group row: the component's summary.
pub fn structured_component_label(component: &RouteComponentUiView) -> (r: String)
    ensures
        r == component.summary,
{
    component.summary.clone()
}

} // verus!
