use app_core::nav::{nav_ref_label, LatLon, NavRef};
use app_core::route::{interpret_path_termination, PathTermination, ProcedureKind, RouteComponentViewKind};
use app_core::row_actions::{
    action, action_matrix_from_actions, assign_action_uids, row_action_disabled_reason,
    set_flight_plan_row_action_enabled, FlightPlanRowActionId, FlightPlanRowNavigationAction,
    PROCEDURE_REMOVE_DISABLED_REASON, REMOVE_ALL_ABOVE_DISABLED_REASON,
    WAYPOINT_REMOVE_DISABLED_REASON,
};
use app_core::rows::{
    flight_plan_row_actions, refresh_flight_plan_row_action_navigation, remove_procedure_action,
    FlightPlanDisplayRowKind, FlightPlanDisplayRowUiView, RouteComponentUiView,
};

fn show_plate_index(row: &FlightPlanDisplayRowUiView) -> (usize, usize) {
    for (i, line) in row.action_matrix.iter().enumerate() {
        for (j, a) in line.iter().enumerate() {
            if a.id == FlightPlanRowActionId::ShowPlate {
                return (i, j);
            }
        }
    }
    panic!("Show Plate action");
}

#[test]
fn spot_flight_plan_label_uses_two_lines_and_precise_coordinates() {
    assert_eq!(
        nav_ref_label(&NavRef::Spot(LatLon {
            lat_e7: 476_260_000,
            lon_e7: -1_221_940_000,
        })),
        "SPOT\n47.6260,-122.1940"
    );
}

#[test]
fn interpret_path_termination_maps_known_codes() {
    assert_eq!(interpret_path_termination("IF"), PathTermination::InitialFix);
    assert_eq!(interpret_path_termination("TF"), PathTermination::TrackToFix);
    assert_eq!(interpret_path_termination("DF"), PathTermination::DirectToFix);
}

#[test]
fn show_plate_navigation_uses_enriched_plate_target() {
    let mut row = FlightPlanDisplayRowUiView {
        uid: "procedure-row".to_string(),
        label: "VOR-A".to_string(),
        row_kind: FlightPlanDisplayRowKind::Group,
        component_kind: Some(RouteComponentViewKind::Procedure),
        component_uid: Some("procedure".to_string()),
        component_index: Some(0),
        procedure_id: Some("KPAE-VOR-A".to_string()),
        procedure_kind: Some(ProcedureKind::Approach),
        leg_index: None,
        show_plate_target_id: None,
        chart_airport_id: Some("KPAE".to_string()),
        nav_ref: None,
        weather_badge: None,
        depth: 0,
        active: false,
        enabled: true,
        disabled_reason: None,
        synthetic_direct_to: false,
        can_add_airway_after: false,
        can_add_procedure_before: false,
        can_remove_component: true,
        can_reorder_component: false,
        can_reorder_up: false,
        can_reorder_down: false,
        origin_anchor: None,
        destination_anchor: None,
        preceding_waypoint: None,
        following_waypoint: None,
        action_matrix: action_matrix_from_actions(&assign_action_uids(
            "procedure-row",
            vec![action(FlightPlanRowActionId::ShowPlate, true)],
        )),
    };

    refresh_flight_plan_row_action_navigation(&mut row);
    let show_plate = flight_plan_row_actions(&row)
        .into_iter()
        .find(|action| action.id == FlightPlanRowActionId::ShowPlate)
        .expect("Show Plate action");
    assert_eq!(show_plate.navigation, None);

    let (i, j) = show_plate_index(&row);
    row.action_matrix[i][j].enabled = false;
    row.action_matrix[i][j].disabled_reason = None;
    refresh_flight_plan_row_action_navigation(&mut row);
    let show_plate = flight_plan_row_actions(&row)
        .into_iter()
        .find(|action| action.id == FlightPlanRowActionId::ShowPlate)
        .expect("Show Plate action");
    assert_eq!(
        show_plate.disabled_reason.as_deref(),
        Some("This procedure has no plate to show.")
    );

    row.show_plate_target_id = Some("Plate:KPAE:KPAE-VOR-A".to_string());
    let (i, j) = show_plate_index(&row);
    row.action_matrix[i][j].enabled = true;
    refresh_flight_plan_row_action_navigation(&mut row);
    let show_plate = flight_plan_row_actions(&row)
        .into_iter()
        .find(|action| action.id == FlightPlanRowActionId::ShowPlate)
        .expect("Show Plate action");
    assert_eq!(show_plate.disabled_reason, None);
    assert_eq!(
        show_plate.navigation,
        Some(FlightPlanRowNavigationAction::OpenPlateTarget {
            airport_id: "KPAE".to_string(),
            target: "Plate:KPAE:KPAE-VOR-A".to_string(),
        })
    );
}

#[test]
fn every_disabled_row_action_has_a_helpful_reason() {
    for id in [
        FlightPlanRowActionId::ActivateLeg,
        FlightPlanRowActionId::DirectTo,
        FlightPlanRowActionId::Remove,
        FlightPlanRowActionId::RemoveAllAbove,
        FlightPlanRowActionId::InsertBefore,
        FlightPlanRowActionId::InsertAfter,
        FlightPlanRowActionId::MoveUp,
        FlightPlanRowActionId::MoveDown,
        FlightPlanRowActionId::WaypointInfo,
        FlightPlanRowActionId::Weather,
        FlightPlanRowActionId::AddAirway,
        FlightPlanRowActionId::SelectDeparture,
        FlightPlanRowActionId::SelectArrival,
        FlightPlanRowActionId::SelectApproach,
        FlightPlanRowActionId::Plates,
        FlightPlanRowActionId::ShowPlate,
        FlightPlanRowActionId::RemoveProcedure,
    ] {
        let mut projected = action(id.clone(), true);
        set_flight_plan_row_action_enabled(&mut projected, false);
        assert!(
            projected
                .disabled_reason
                .as_deref()
                .is_some_and(|reason| !reason.trim().is_empty()),
            "disabled {id:?} action should explain why"
        );
        set_flight_plan_row_action_enabled(&mut projected, true);
        assert_eq!(
            projected.disabled_reason, None,
            "enabled {id:?} action should not retain a stale reason"
        );
    }
}

#[test]
fn remove_action_disabled_reasons_are_specific() {
    assert_eq!(
        row_action_disabled_reason(&FlightPlanRowActionId::Remove, false).as_deref(),
        Some(WAYPOINT_REMOVE_DISABLED_REASON)
    );
    assert_eq!(
        row_action_disabled_reason(&FlightPlanRowActionId::RemoveProcedure, false).as_deref(),
        Some(PROCEDURE_REMOVE_DISABLED_REASON)
    );
    assert_eq!(
        row_action_disabled_reason(&FlightPlanRowActionId::RemoveAllAbove, false).as_deref(),
        Some(REMOVE_ALL_ABOVE_DISABLED_REASON)
    );
}

fn sample_group_component(kind: RouteComponentViewKind) -> RouteComponentUiView {
    RouteComponentUiView {
        uid: "fpc:0000000000000001".to_string(),
        component_index: 1,
        kind,
        summary: "V16".to_string(),
        procedure_id: None,
        procedure_kind: None,
        chart_airport_id: None,
        nav_ref: None,
        items: Vec::new(),
        active: false,
        can_add_airway_after: false,
        can_add_procedure_before: false,
        can_remove: true,
        can_reorder: true,
        can_reorder_up: true,
        can_reorder_down: true,
        replace_procedure_component_index: None,
        preceding_waypoint: Some(NavRef::Airport("KBOS".to_string())),
        following_waypoint: Some(NavRef::Airport("KJFK".to_string())),
    }
}

#[test]
fn procedure_removal_labels_use_pilot_facing_procedure_kinds() {
    let label = |kind| {
        let mut component = sample_group_component(RouteComponentViewKind::Airway);
        component.kind = RouteComponentViewKind::Procedure;
        component.procedure_kind = kind;
        remove_procedure_action(&component).label
    };

    assert_eq!(label(Some(ProcedureKind::Sid)), "Remove Departure");
    assert_eq!(label(Some(ProcedureKind::Star)), "Remove Arrival");
    assert_eq!(label(Some(ProcedureKind::Approach)), "Remove Approach");
    assert_eq!(label(None), "Remove Procedure");
}
