use app_core::flight_plan::{FlightPlan, ResolvedLeg};
use app_core::guidance::ResolvedLegSource;
use app_core::nav::{AirportId, NavRef};
use app_core::rebuild::{
    grouped_component_legs, materialize_rebuilt_components,
    rebuild_resolved_legs_with_grouped_components, rewrite_grouped_legs_source,
    validate_preserved_grouped_leg_order, RebuiltRouteComponent,
};
use app_core::route::{
    validate_procedure_attachments, AirwaySegment, AppErrorKind, ProcedureDiscontinuity,
    ProcedureKind, ProcedureSegment, RouteComponent, APPROACH_ATTACHMENT_MESSAGE,
    ARRIVAL_ATTACHMENT_MESSAGE, DEPARTURE_ATTACHMENT_MESSAGE,
};

fn star(terminal: Option<ProcedureDiscontinuity>) -> RouteComponent {
    RouteComponent::Procedure {
        procedure: ProcedureSegment {
            airport_id: AirportId("KAAA".to_string()),
            procedure_id: "STAR1".to_string(),
            display_label: None,
            kind: ProcedureKind::Star,
            runway_transition: Some("RW10".to_string()),
            enroute_transition: Some("FOO".to_string()),
            terminal_discontinuity: terminal,
            data_quality: Vec::new(),
        },
    }
}

fn airport(id: &str) -> RouteComponent {
    RouteComponent::Waypoint { waypoint: NavRef::Airport(id.to_string()) }
}

fn proc_leg(id: &str, from: &str, to: &str, component_index: usize) -> ResolvedLeg {
    ResolvedLeg {
        id: id.to_string(),
        from: NavRef::Fix(from.to_string()),
        to: NavRef::Fix(to.to_string()),
        source: ResolvedLegSource::RouteComponent { component_index },
        procedure_provenance: None,
    }
}

#[test]
fn procedure_without_terminal_discontinuity_bridges_to_following_waypoint() {
    let components = vec![airport("KAAA"), star(None), airport("KBBB")];
    let grouped = vec![None, Some(vec![proc_leg("proc-0", "FOO", "BAR", 1)]), None];

    let resolved = rebuild_resolved_legs_with_grouped_components(&components, &grouped);

    assert_eq!(resolved.len(), 3);
    assert_eq!(resolved[0].from, NavRef::Airport("KAAA".to_string()));
    assert_eq!(resolved[0].to, NavRef::Fix("FOO".to_string()));
    assert_eq!(resolved[2].from, NavRef::Fix("BAR".to_string()));
    assert_eq!(resolved[2].to, NavRef::Airport("KBBB".to_string()));
}

#[test]
fn procedure_with_terminal_discontinuity_does_not_bridge_to_following_waypoint() {
    let components = vec![
        airport("KAAA"),
        star(Some(ProcedureDiscontinuity::Vectors)),
        airport("KBBB"),
    ];
    let grouped = vec![None, Some(vec![proc_leg("proc-0", "FOO", "BAR", 1)]), None];

    let resolved = rebuild_resolved_legs_with_grouped_components(&components, &grouped);

    assert_eq!(resolved.len(), 2);
    assert_eq!(resolved[0].from, NavRef::Airport("KAAA".to_string()));
    assert_eq!(resolved[0].to, NavRef::Fix("FOO".to_string()));
    assert_eq!(resolved[1].from, NavRef::Fix("FOO".to_string()));
    assert_eq!(resolved[1].to, NavRef::Fix("BAR".to_string()));
}

#[test]
fn rebuilt_bridges_are_numbered_and_skip_repeated_waypoints() {
    let components = vec![
        airport("KAAA"),
        RouteComponent::Waypoint { waypoint: NavRef::Fix("ONE".to_string()) },
        RouteComponent::Waypoint { waypoint: NavRef::Fix("ONE".to_string()) },
        RouteComponent::Airway {
            airway: AirwaySegment {
                name: "V23".to_string(),
                branch_key: None,
                entry: NavRef::Fix("ONE".to_string()),
                exit: NavRef::Fix("TWO".to_string()),
            },
        },
        airport("KBBB"),
    ];
    let resolved = rebuild_resolved_legs_with_grouped_components(&components, &Vec::new());
    let ids: Vec<&str> = resolved.iter().map(|leg| leg.id.as_str()).collect();
    assert_eq!(ids, vec!["component-0-1", "component-1-2", "component-2-3"]);
    assert_eq!(
        resolved[0].source,
        ResolvedLegSource::SyntheticBridge { from_component_index: 0, to_component_index: 2 }
    );
    assert_eq!(resolved[1].from, NavRef::Fix("ONE".to_string()));
    assert_eq!(resolved[1].to, NavRef::Fix("TWO".to_string()));
    assert_eq!(
        resolved[1].source,
        ResolvedLegSource::SyntheticBridge { from_component_index: 3, to_component_index: 3 }
    );
    assert_eq!(resolved[2].to, NavRef::Airport("KBBB".to_string()));
}

#[test]
fn departure_from_the_origin_needs_no_bridge() {
    let mut sid = star(None);
    if let RouteComponent::Procedure { procedure } = &mut sid {
        procedure.kind = ProcedureKind::Sid;
    }
    let components = vec![airport("KAAA"), sid, airport("KBBB")];
    let grouped = vec![None, Some(vec![proc_leg("sid-0", "RW10", "FOO", 1)]), None];
    let resolved = rebuild_resolved_legs_with_grouped_components(&components, &grouped);
    assert_eq!(resolved.len(), 2);
    assert_eq!(resolved[0].id, "sid-0");
    assert_eq!(resolved[1].id, "component-0-1");
    assert_eq!(resolved[1].from, NavRef::Fix("FOO".to_string()));
}

#[test]
fn preserved_leg_order_is_checked_per_component() {
    let grouped = vec![None, Some(vec![proc_leg("a", "FOO", "BAR", 1), proc_leg("b", "BAR", "BAZ", 1)])];
    let good = vec![proc_leg("a", "FOO", "BAR", 1), proc_leg("b", "BAR", "BAZ", 1)];
    assert!(validate_preserved_grouped_leg_order(&grouped, &good).is_ok());

    let swapped = vec![proc_leg("b", "BAR", "BAZ", 1), proc_leg("a", "FOO", "BAR", 1)];
    let err = validate_preserved_grouped_leg_order(&grouped, &swapped).unwrap_err();
    assert_eq!(err.kind, AppErrorKind::InvalidFlightPlan);
    assert_eq!(
        err.message,
        "route rebuild did not preserve grouped legs for component 1: expected [\"a\", \"b\"], got [\"b\", \"a\"]"
    );
}

#[test]
fn rebuilding_keeps_materialized_legs_in_order() {
    let plan = FlightPlan::empty();
    let rebuilt = vec![
        RebuiltRouteComponent { uid: Some("fpc:0000000000000007".to_string()), component: airport("KAAA"), preserved_legs: None },
        RebuiltRouteComponent {
            uid: Some("fpc:0000000000000007".to_string()),
            component: star(None),
            preserved_legs: Some(vec![proc_leg("p0", "FOO", "BAR", 9), proc_leg("p1", "BAR", "BAZ", 9)]),
        },
        RebuiltRouteComponent { uid: None, component: airport("KBBB"), preserved_legs: None },
    ];
    let (components, uids, counter, grouped) = materialize_rebuilt_components(&plan, rebuilt);
    assert_eq!(uids, vec!["fpc:0000000000000007", "fpc:0000000000000000", "fpc:0000000000000001"]);
    assert_eq!(counter, 2);
    assert_eq!(components.len(), 3);
    let kept = grouped[1].as_ref().unwrap();
    assert_eq!(kept[0].source, ResolvedLegSource::RouteComponent { component_index: 1 });
    let resolved = rebuild_resolved_legs_with_grouped_components(&components, &grouped);
    assert!(validate_preserved_grouped_leg_order(&grouped, &resolved).is_ok());
    assert_eq!(resolved.len(), 4);
}

#[test]
fn grouped_legs_come_from_non_waypoint_components() {
    let mut plan = FlightPlan::empty();
    plan.route_components = vec![airport("KAAA"), star(None), airport("KBBB")];
    plan.resolved_legs = vec![
        proc_leg("w", "X", "Y", 0),
        proc_leg("p0", "FOO", "BAR", 1),
        proc_leg("p1", "BAR", "BAZ", 1),
    ];
    let grouped = grouped_component_legs(&plan);
    assert_eq!(grouped.len(), 3);
    assert!(grouped[0].is_none());
    assert_eq!(grouped[1].as_ref().unwrap().len(), 2);
    assert!(grouped[2].is_none());
    let moved = rewrite_grouped_legs_source(grouped[1].as_ref().unwrap(), 4);
    assert_eq!(moved[1].source, ResolvedLegSource::RouteComponent { component_index: 4 });
    assert_eq!(moved[1].id, "p1");
}

fn procedure_component(kind: ProcedureKind, airport_id: &str) -> RouteComponent {
    RouteComponent::Procedure {
        procedure: ProcedureSegment {
            airport_id: AirportId(airport_id.to_string()),
            procedure_id: match kind {
                ProcedureKind::Sid => "TEST1",
                ProcedureKind::Star => "TEST2",
                ProcedureKind::Approach => "TEST3",
            }
            .to_string(),
            display_label: None,
            kind,
            runway_transition: None,
            enroute_transition: None,
            terminal_discontinuity: None,
            data_quality: Vec::new(),
        },
    }
}

fn plan_with_all_attached_procedures() -> FlightPlan {
    let mut plan = FlightPlan::empty();
    plan.route_components = vec![
        airport("KSEA"),
        procedure_component(ProcedureKind::Sid, "KSEA"),
        RouteComponent::Waypoint { waypoint: NavRef::Fix("ENRTE".to_string()) },
        procedure_component(ProcedureKind::Star, "KPAE"),
        procedure_component(ProcedureKind::Approach, "KPAE"),
        airport("KPAE"),
    ];
    plan.normalized()
}

#[test]
fn procedure_attachment_invariants_accept_the_canonical_route_shape() {
    validate_procedure_attachments(&plan_with_all_attached_procedures().route_components)
        .expect("canonical SID/STAR/approach attachments");
}

#[test]
fn procedure_attachment_invariants_reject_detached_and_duplicate_procedures() {
    let valid = plan_with_all_attached_procedures();
    let mut cases = Vec::new();

    let mut detached_departure = valid.route_components.clone();
    detached_departure.swap(1, 2);
    cases.push((detached_departure, DEPARTURE_ATTACHMENT_MESSAGE));

    let mut duplicate_departure = valid.route_components.clone();
    duplicate_departure.insert(2, procedure_component(ProcedureKind::Sid, "KSEA"));
    cases.push((duplicate_departure, DEPARTURE_ATTACHMENT_MESSAGE));

    let mut detached_arrival = valid.route_components.clone();
    detached_arrival.swap(2, 3);
    cases.push((detached_arrival, ARRIVAL_ATTACHMENT_MESSAGE));

    let mut duplicate_arrival = valid.route_components.clone();
    duplicate_arrival.insert(3, procedure_component(ProcedureKind::Star, "KPAE"));
    cases.push((duplicate_arrival, ARRIVAL_ATTACHMENT_MESSAGE));

    let mut detached_approach = valid.route_components.clone();
    detached_approach.swap(4, 5);
    cases.push((detached_approach, APPROACH_ATTACHMENT_MESSAGE));

    let mut duplicate_approach = valid.route_components.clone();
    duplicate_approach.insert(
        valid.route_components.len() - 1,
        procedure_component(ProcedureKind::Approach, "KPAE"),
    );
    cases.push((duplicate_approach, APPROACH_ATTACHMENT_MESSAGE));

    for (components, expected_message) in cases {
        let error = validate_procedure_attachments(&components).unwrap_err();
        assert_eq!(error.kind, AppErrorKind::InvalidFlightPlan);
        assert_eq!(error.message, expected_message);
    }
}
