use app_core::attachment::{
    attached_procedure_component_index, can_insert_procedure_before_component,
    endpoint_with_attached_procedures_range, procedure_component_index_for_load,
    replaceable_procedure_component_before,
};
use app_core::flight_plan::FlightPlan;
use app_core::nav::{AirportId, NavRef};
use app_core::route::{
    AirwaySegment, AppErrorKind, ProcedureKind, ProcedureSegment, RouteComponent,
    APPROACH_ATTACHMENT_MESSAGE, ARRIVAL_ATTACHMENT_MESSAGE, DEPARTURE_ATTACHMENT_MESSAGE,
};

fn airport(id: &str) -> RouteComponent {
    RouteComponent::Waypoint { waypoint: NavRef::Airport(id.to_string()) }
}

fn procedure(kind: ProcedureKind, airport_id: &str) -> RouteComponent {
    RouteComponent::Procedure {
        procedure: ProcedureSegment {
            airport_id: AirportId(airport_id.to_string()),
            procedure_id: "P1".to_string(),
            display_label: None,
            kind,
            runway_transition: None,
            enroute_transition: None,
            terminal_discontinuity: None,
            data_quality: Vec::new(),
        },
    }
}

fn plan_of(route_components: Vec<RouteComponent>) -> FlightPlan {
    let mut plan = FlightPlan::empty();
    plan.route_components = route_components;
    plan
}

fn full_plan() -> FlightPlan {
    plan_of(vec![
        airport("KSEA"),
        procedure(ProcedureKind::Sid, "KSEA"),
        RouteComponent::Waypoint { waypoint: NavRef::Fix("ENRTE".to_string()) },
        procedure(ProcedureKind::Star, " KPAE "),
        procedure(ProcedureKind::Approach, "KPAE"),
        airport("KPAE"),
    ])
}

#[test]
fn attached_procedures_are_found_in_their_slots() {
    let plan = full_plan();
    assert_eq!(attached_procedure_component_index(&plan, 0, ProcedureKind::Sid), Some(1));
    assert_eq!(attached_procedure_component_index(&plan, 5, ProcedureKind::Approach), Some(4));
    assert_eq!(attached_procedure_component_index(&plan, 5, ProcedureKind::Star), Some(3));
    assert_eq!(attached_procedure_component_index(&plan, 5, ProcedureKind::Sid), None);
    assert_eq!(attached_procedure_component_index(&plan, 2, ProcedureKind::Star), None);
    let no_approach = plan_of(vec![airport("KSEA"), procedure(ProcedureKind::Star, "KPAE"), airport("KPAE")]);
    assert_eq!(attached_procedure_component_index(&no_approach, 2, ProcedureKind::Star), Some(1));
    let elsewhere = plan_of(vec![airport("KSEA"), procedure(ProcedureKind::Approach, "KBFI"), airport("KPAE")]);
    assert_eq!(attached_procedure_component_index(&elsewhere, 2, ProcedureKind::Approach), None);
}

#[test]
fn procedures_load_over_the_attached_one_or_into_their_slot() {
    let plan = full_plan();
    assert_eq!(procedure_component_index_for_load(&plan, 5, ProcedureKind::Star).unwrap(), 3);
    let bare = plan_of(vec![airport("KSEA"), airport("KPAE")]);
    assert_eq!(procedure_component_index_for_load(&bare, 0, ProcedureKind::Sid).unwrap(), 1);
    assert_eq!(procedure_component_index_for_load(&bare, 1, ProcedureKind::Approach).unwrap(), 1);
    assert_eq!(procedure_component_index_for_load(&bare, 1, ProcedureKind::Star).unwrap(), 1);
    let with_approach = plan_of(vec![airport("KSEA"), procedure(ProcedureKind::Approach, "KPAE"), airport("KPAE")]);
    assert_eq!(procedure_component_index_for_load(&with_approach, 2, ProcedureKind::Star).unwrap(), 1);

    let err = procedure_component_index_for_load(&bare, 1, ProcedureKind::Sid).unwrap_err();
    assert_eq!(err.kind, AppErrorKind::InvalidFlightPlan);
    assert_eq!(err.message, DEPARTURE_ATTACHMENT_MESSAGE);
    let err = procedure_component_index_for_load(&bare, 0, ProcedureKind::Approach).unwrap_err();
    assert_eq!(err.message, APPROACH_ATTACHMENT_MESSAGE);
    let err = procedure_component_index_for_load(&bare, 0, ProcedureKind::Star).unwrap_err();
    assert_eq!(err.message, ARRIVAL_ATTACHMENT_MESSAGE);
    let err = procedure_component_index_for_load(&full_plan(), 2, ProcedureKind::Star).unwrap_err();
    assert_eq!(err.kind, AppErrorKind::UnsupportedOperation);
    assert_eq!(err.message, "procedure load target must be an airport waypoint");
}

#[test]
fn procedures_go_after_waypoints_and_airways_only() {
    let plan = plan_of(vec![
        airport("KSEA"),
        RouteComponent::Airway {
            airway: AirwaySegment {
                name: "V4".to_string(),
                branch_key: None,
                entry: NavRef::Fix("A".to_string()),
                exit: NavRef::Fix("B".to_string()),
            },
        },
        procedure(ProcedureKind::Approach, "KPAE"),
        airport("KPAE"),
    ]);
    assert!(can_insert_procedure_before_component(&plan, 0));
    assert!(can_insert_procedure_before_component(&plan, 1));
    assert!(can_insert_procedure_before_component(&plan, 2));
    assert!(!can_insert_procedure_before_component(&plan, 3));
    assert!(!can_insert_procedure_before_component(&plan, 9));
    assert_eq!(replaceable_procedure_component_before(&plan, 3), Some(2));
    assert_eq!(replaceable_procedure_component_before(&plan, 2), None);
}

#[test]
fn endpoints_take_their_attached_procedures_along() {
    let plan = full_plan();
    assert_eq!(endpoint_with_attached_procedures_range(&plan, 0), (0, 1));
    assert_eq!(endpoint_with_attached_procedures_range(&plan, 5), (3, 5));
    assert_eq!(endpoint_with_attached_procedures_range(&plan, 2), (2, 2));
    let bare = plan_of(vec![airport("KSEA"), airport("KPAE")]);
    assert_eq!(endpoint_with_attached_procedures_range(&bare, 1), (1, 1));
}
