use app_core::flight_plan::{FlightPlan, ResolvedLeg};
use app_core::guidance::ResolvedLegSource;
use app_core::nav::{AirportId, NavRef};
use app_core::rebuild::RebuiltRouteComponent;
use app_core::route::{
    AirwaySegment, AppErrorKind, ProcedureKind, ProcedureSegment, RouteComponent,
};
use app_core::route_edits::{
    airport_waypoint_insertion_components, airway_chaining_components,
    airway_child_removal_components, airway_endpoint_change_components,
    airway_exit_materialization_components, airway_insertion_components,
    airway_points_and_legs, airway_replacement_components, airway_tail_insertion_components,
    deletion_components, departure_insertion_components, flattening_components,
    initial_procedure_insertion_components, move_components, procedure_insertion_components,
    procedure_replacement_components, procedure_transition_change_components,
    remove_all_above_components, terminal_procedure_insertion_components,
    waypoint_deletion_components, waypoint_insertion_components,
};

fn airport(id: &str) -> NavRef {
    NavRef::Airport(id.to_string())
}

fn fix(id: &str) -> NavRef {
    NavRef::Fix(id.to_string())
}

fn waypoint(nav_ref: NavRef) -> RouteComponent {
    RouteComponent::Waypoint { waypoint: nav_ref }
}

fn airway(name: &str, entry: NavRef, exit: NavRef) -> AirwaySegment {
    AirwaySegment { name: name.to_string(), branch_key: None, entry, exit }
}

fn leg(id: &str, from: NavRef, to: NavRef, component_index: usize) -> ResolvedLeg {
    ResolvedLeg {
        id: id.to_string(),
        from,
        to,
        source: ResolvedLegSource::RouteComponent { component_index },
        procedure_provenance: None,
    }
}

fn procedure(kind: ProcedureKind, airport_id: &str) -> ProcedureSegment {
    ProcedureSegment {
        airport_id: AirportId(airport_id.to_string()),
        procedure_id: "PROC".to_string(),
        display_label: None,
        kind,
        runway_transition: None,
        enroute_transition: None,
        terminal_discontinuity: None,
        data_quality: Vec::new(),
    }
}

fn plan(route_components: Vec<RouteComponent>, resolved_legs: Vec<ResolvedLeg>) -> FlightPlan {
    let uids = (0..route_components.len()).map(|i| format!("u{i}")).collect();
    FlightPlan {
        id: "plan".to_string(),
        name: "Edits".to_string(),
        route_component_uid_counter: route_components.len() as u64,
        route_components,
        route_component_uids: uids,
        resolved_legs,
        guidance: None,
        departure: None,
        destination: None,
        alternate: None,
        cruise_altitude_ft: None,
        planned_departure_time_epoch_ms: None,
        notes: None,
        updated_at_epoch_ms: 0,
        version: 1,
    }
}

fn uids(rs: &[RebuiltRouteComponent]) -> Vec<Option<String>> {
    rs.iter().map(|r| r.uid.clone()).collect()
}

fn some(uid: &str) -> Option<String> {
    Some(uid.to_string())
}

fn four_waypoints() -> FlightPlan {
    plan(
        vec![
            waypoint(airport("KRNT")),
            waypoint(NavRef::Navaid("SEA".to_string())),
            waypoint(fix("OLM")),
            waypoint(airport("KUAO")),
        ],
        Vec::new(),
    )
}

fn airway_plan() -> FlightPlan {
    plan(
        vec![
            waypoint(airport("KSEA")),
            RouteComponent::Airway { airway: airway("V23", fix("ALPHA"), fix("GAMMA")) },
            waypoint(airport("KPDX")),
        ],
        vec![
            leg("bridge", airport("KSEA"), fix("ALPHA"), 0),
            leg("v23-1", fix("ALPHA"), fix("BRAVO"), 1),
            leg("v23-2", fix("BRAVO"), fix("GAMMA"), 1),
            leg("final", fix("GAMMA"), airport("KPDX"), 2),
        ],
    )
}

fn message<T>(r: Result<T, app_core::route::AppError>) -> (AppErrorKind, String) {
    match r {
        Err(e) => (e.kind, e.message),
        Ok(_) => panic!("expected an error"),
    }
}

#[test]
fn an_airway_between_waypoints_takes_the_place_of_the_ends_it_starts_and_ends_at() {
    let plan = four_waypoints();
    let v2 = airway("V2", NavRef::Navaid("SEA".to_string()), fix("OLM"));
    let legs = vec![leg("v2", NavRef::Navaid("SEA".to_string()), fix("OLM"), 0)];
    let rs = airway_insertion_components(&plan, 1, 2, v2.clone(), legs).unwrap();
    assert_eq!(uids(&rs), vec![some("u0"), None, some("u3")]);
    assert_eq!(rs[1].component, RouteComponent::Airway { airway: v2 });
    assert_eq!(rs[1].preserved_legs.as_ref().map(|l| l.len()), Some(1));
    assert_eq!(rs[2].component, waypoint(airport("KUAO")));

    let other = airway("V4", fix("ZED"), fix("YAY"));
    let rs = airway_insertion_components(&plan, 0, 3, other, Vec::new()).unwrap();
    assert_eq!(uids(&rs), vec![some("u0"), None, some("u3")]);
}

#[test]
fn airway_spans_must_increase_and_hold_waypoints_only() {
    let plan = four_waypoints();
    let v2 = airway("V2", fix("A"), fix("B"));
    assert_eq!(
        message(airway_insertion_components(&plan, 2, 1, v2.clone(), Vec::new())),
        (
            AppErrorKind::UnsupportedOperation,
            "airway insertion requires an increasing waypoint span, got start=2 end=1".to_string()
        )
    );
    assert_eq!(
        message(airway_insertion_components(&plan, 1, 9, v2.clone(), Vec::new())),
        (AppErrorKind::UnsupportedOperation, "component index out of bounds: 9".to_string())
    );
    let grouped = airway_plan();
    assert_eq!(
        message(procedure_insertion_components(
            &grouped,
            0,
            2,
            procedure(ProcedureKind::Star, "KPDX"),
            Vec::new()
        )),
        (
            AppErrorKind::UnsupportedOperation,
            "procedure insertion cannot replace a span containing grouped components; flatten or remove them first"
                .to_string()
        )
    );
    assert_eq!(
        message(airway_insertion_components(&grouped, 1, 2, v2, Vec::new())),
        (
            AppErrorKind::UnsupportedOperation,
            "airway insertion start must be a waypoint component".to_string()
        )
    );
}

#[test]
fn a_procedure_between_waypoints_replaces_the_waypoints_inside_the_span() {
    let plan = four_waypoints();
    let rs = procedure_insertion_components(
        &plan,
        0,
        3,
        procedure(ProcedureKind::Star, "KUAO"),
        vec![leg("star", fix("A"), fix("B"), 0)],
    )
    .unwrap();
    assert_eq!(uids(&rs), vec![some("u0"), None, some("u3")]);
}

#[test]
fn an_approach_goes_just_before_the_destination_airport() {
    let plan = plan(vec![waypoint(airport("KRNT")), waypoint(airport("KSEA"))], Vec::new());
    let approach = procedure(ProcedureKind::Approach, " KSEA ");
    let rs = terminal_procedure_insertion_components(
        &plan,
        1,
        approach.clone(),
        vec![leg("app", fix("A"), fix("B"), 0)],
    )
    .unwrap();
    assert_eq!(uids(&rs), vec![some("u0"), None, some("u1")]);
    assert_eq!(rs[1].component, RouteComponent::Procedure { procedure: approach });

    assert_eq!(
        message(terminal_procedure_insertion_components(
            &plan,
            1,
            procedure(ProcedureKind::Sid, "KSEA"),
            vec![leg("sid", fix("A"), fix("B"), 0)],
        )),
        (
            AppErrorKind::InvalidFlightPlan,
            "terminal procedure insertion requires a STAR or approach".to_string()
        )
    );
    assert_eq!(
        message(terminal_procedure_insertion_components(
            &plan,
            1,
            procedure(ProcedureKind::Approach, "KSEA"),
            Vec::new(),
        )),
        (
            AppErrorKind::InvalidFlightPlan,
            "terminal procedure must contain at least one resolved leg".to_string()
        )
    );
    assert_eq!(
        message(terminal_procedure_insertion_components(
            &plan,
            1,
            procedure(ProcedureKind::Star, "KPDX"),
            vec![leg("star", fix("A"), fix("B"), 0)],
        )),
        (
            AppErrorKind::InvalidFlightPlan,
            "An arrival procedure is attached to the destination airport.".to_string()
        )
    );
    assert_eq!(
        message(initial_procedure_insertion_components(
            &plan,
            1,
            procedure(ProcedureKind::Approach, "KSEA"),
            vec![leg("app", fix("A"), fix("B"), 0)],
        )),
        (
            AppErrorKind::UnsupportedOperation,
            "initial procedure insertion requires the first component, got 1".to_string()
        )
    );
}

#[test]
fn a_departure_follows_the_origin_airport() {
    let plan = plan(vec![waypoint(airport("KRNT")), waypoint(airport("KSEA"))], Vec::new());
    let sid = procedure(ProcedureKind::Sid, "KRNT");
    let rs = departure_insertion_components(&plan, 0, sid, vec![leg("sid", fix("A"), fix("B"), 0)])
        .unwrap();
    assert_eq!(uids(&rs), vec![some("u0"), None, some("u1")]);
    assert_eq!(
        message(departure_insertion_components(
            &plan,
            0,
            procedure(ProcedureKind::Sid, "KBFI"),
            vec![leg("sid", fix("A"), fix("B"), 0)],
        )),
        (
            AppErrorKind::InvalidFlightPlan,
            "departure airport does not match the flight-plan origin".to_string()
        )
    );
    assert_eq!(
        message(departure_insertion_components(
            &plan,
            0,
            procedure(ProcedureKind::Star, "KRNT"),
            vec![leg("sid", fix("A"), fix("B"), 0)],
        )),
        (AppErrorKind::InvalidFlightPlan, "departure insertion requires a SID procedure".to_string())
    );
}

#[test]
fn deleting_removing_above_and_moving_keep_the_other_components_in_order() {
    let plan = four_waypoints();
    let rs = deletion_components(&plan, 1).unwrap();
    assert_eq!(uids(&rs), vec![some("u0"), some("u2"), some("u3")]);
    let rs = waypoint_deletion_components(&plan, 3).unwrap();
    assert_eq!(uids(&rs), vec![some("u0"), some("u1"), some("u2")]);
    assert_eq!(
        message(deletion_components(&plan, 4)),
        (AppErrorKind::UnsupportedOperation, "component index out of bounds: 4".to_string())
    );
    let rs = remove_all_above_components(&plan, 1).unwrap();
    assert_eq!(uids(&rs), vec![some("u2"), some("u3")]);

    let rs = move_components(&plan, 0, 2).unwrap().unwrap();
    assert_eq!(uids(&rs), vec![some("u1"), some("u2"), some("u0"), some("u3")]);
    let rs = move_components(&plan, 3, -1).unwrap().unwrap();
    assert_eq!(uids(&rs), vec![some("u0"), some("u1"), some("u3"), some("u2")]);
    assert!(move_components(&plan, 1, 0).unwrap().is_none());
    assert_eq!(
        message(move_components(&plan, 3, 1)),
        (AppErrorKind::UnsupportedOperation, "component move out of bounds: 3 -> 4".to_string())
    );
    assert_eq!(
        message(move_components(&plan, 0, -1)),
        (AppErrorKind::UnsupportedOperation, "component move out of bounds: 0 -> -1".to_string())
    );

    let grouped = airway_plan();
    assert_eq!(
        message(waypoint_deletion_components(&grouped, 1)),
        (
            AppErrorKind::UnsupportedOperation,
            "cannot delete inside a grouped route component directly; flatten or remove the whole component"
                .to_string()
        )
    );
    let rs = deletion_components(&grouped, 1).unwrap();
    assert_eq!(uids(&rs), vec![some("u0"), some("u2")]);
}

#[test]
fn inserting_waypoints_before_after_and_at_the_end() {
    let plan = four_waypoints();
    let rs = waypoint_insertion_components(&plan, 1, true, fix("NEW")).unwrap();
    assert_eq!(uids(&rs), vec![some("u0"), None, some("u1"), some("u2"), some("u3")]);
    let rs = waypoint_insertion_components(&plan, 3, false, fix("NEW")).unwrap();
    assert_eq!(uids(&rs), vec![some("u0"), some("u1"), some("u2"), some("u3"), None]);
    assert_eq!(rs[4].component, waypoint(fix("NEW")));
    assert!(rs[4].preserved_legs.is_none());

    let rs = airport_waypoint_insertion_components(&plan, 0, false, "  kbfi ").unwrap();
    assert_eq!(rs[1].component, waypoint(airport("KBFI")));
    assert_eq!(
        message(airport_waypoint_insertion_components(&plan, 0, false, "   ")),
        (AppErrorKind::InvalidFlightPlan, "airport id is required".to_string())
    );
}

#[test]
fn airways_are_appended_after_the_last_waypoint_or_airway() {
    let plan = four_waypoints();
    let tail = airway("V5", airport("KUAO"), fix("FAR"));
    let rs = airway_tail_insertion_components(&plan, 3, tail, Vec::new()).unwrap();
    assert_eq!(uids(&rs), vec![some("u0"), some("u1"), some("u2"), some("u3"), None, None]);
    assert_eq!(rs[5].component, waypoint(fix("FAR")));
    assert!(rs[5].preserved_legs.is_none());
    let bridged = airway_tail_insertion_components(&plan, 3, airway("V6", fix("X"), fix("Y")), Vec::new()).unwrap();
    assert_eq!(uids(&bridged), vec![some("u0"), some("u1"), some("u2"), some("u3"), None]);
    assert_eq!(
        message(airway_tail_insertion_components(&plan, 2, airway("V5", fix("A"), fix("B")), Vec::new())),
        (
            AppErrorKind::UnsupportedOperation,
            "airway tail insertion requires the selected waypoint to be the end of the route"
                .to_string()
        )
    );

    let chained = plan_with_trailing_airway();
    let rs = airway_chaining_components(&chained, 1, airway("V6", fix("GAMMA"), fix("DELTA")), Vec::new())
        .unwrap();
    assert_eq!(uids(&rs), vec![some("u0"), some("u1"), None]);
    assert_eq!(
        message(airway_chaining_components(&chained, 1, airway("V6", fix("OTHER"), fix("DELTA")), Vec::new())),
        (AppErrorKind::InvalidFlightPlan, "V6 cannot start after GAMMA".to_string())
    );
}

fn plan_with_trailing_airway() -> FlightPlan {
    plan(
        vec![
            waypoint(airport("KSEA")),
            RouteComponent::Airway { airway: airway("V23", fix("ALPHA"), fix("GAMMA")) },
        ],
        Vec::new(),
    )
}

#[test]
fn replacing_and_changing_grouped_components_keeps_their_uid() {
    let plan = airway_plan();
    let replacement = airway("V99", fix("ALPHA"), fix("GAMMA"));
    let rs = airway_replacement_components(
        &plan,
        1,
        replacement.clone(),
        vec![leg("v99", fix("ALPHA"), fix("GAMMA"), 1)],
    )
    .unwrap();
    assert_eq!(uids(&rs), vec![some("u0"), some("u1"), some("u2")]);
    assert_eq!(rs[1].component, RouteComponent::Airway { airway: replacement });
    assert_eq!(
        message(airway_replacement_components(&plan, 0, airway("V1", fix("A"), fix("B")), Vec::new())),
        (AppErrorKind::UnsupportedOperation, "target component is not an airway".to_string())
    );
    assert_eq!(
        message(airway_replacement_components(&plan, 1, airway("V1", fix("A"), fix("B")), Vec::new())),
        (
            AppErrorKind::InvalidFlightPlan,
            "replacement airway must contain at least one resolved leg".to_string()
        )
    );
    let rs = airway_endpoint_change_components(
        &plan,
        1,
        fix("BRAVO"),
        false,
        vec![leg("v23", fix("ALPHA"), fix("BRAVO"), 1)],
    )
    .unwrap();
    assert_eq!(rs[1].component, RouteComponent::Airway { airway: airway("V23", fix("ALPHA"), fix("BRAVO")) });

    let with_procedure = plan_with_procedure();
    let rs = procedure_transition_change_components(
        &with_procedure,
        1,
        Some("RW16R".to_string()),
        false,
        vec![leg("app", fix("A"), fix("B"), 1)],
    )
    .unwrap();
    match &rs[1].component {
        RouteComponent::Procedure { procedure } => {
            assert_eq!(procedure.runway_transition.as_deref(), Some("RW16R"));
        }
        other => panic!("unexpected component {other:?}"),
    }
    assert_eq!(
        message(procedure_replacement_components(
            &with_procedure,
            0,
            procedure(ProcedureKind::Approach, "KSEA"),
            vec![leg("app", fix("A"), fix("B"), 1)],
        )),
        (AppErrorKind::UnsupportedOperation, "target component is not a procedure".to_string())
    );
}

fn plan_with_procedure() -> FlightPlan {
    plan(
        vec![
            waypoint(airport("KRNT")),
            RouteComponent::Procedure { procedure: procedure(ProcedureKind::Approach, "KSEA") },
            waypoint(airport("KSEA")),
        ],
        Vec::new(),
    )
}

#[test]
fn flattening_turns_a_group_into_waypoints() {
    let plan = airway_plan();
    let rs = flattening_components(&plan, 1, vec![fix("ALPHA"), fix("BRAVO"), fix("GAMMA")]).unwrap();
    assert_eq!(uids(&rs), vec![some("u0"), None, None, None, some("u2")]);
    assert_eq!(rs[2].component, waypoint(fix("BRAVO")));
    assert_eq!(
        message(flattening_components(&plan, 0, vec![fix("A"), fix("B")])),
        (AppErrorKind::UnsupportedOperation, "waypoint components are already explicit".to_string())
    );
    assert_eq!(
        message(flattening_components(&plan, 1, vec![fix("A")])),
        (AppErrorKind::UnsupportedOperation, "flattening requires at least two waypoints".to_string())
    );
}

#[test]
fn only_visible_airway_endpoints_can_be_removed() {
    let plan = airway_plan();
    let (segment, points, legs) = airway_points_and_legs(&plan, 1).unwrap();
    assert_eq!(segment.name, "V23");
    assert_eq!(points, vec![fix("ALPHA"), fix("BRAVO"), fix("GAMMA")]);
    assert_eq!(legs.len(), 2);

    assert_eq!(
        message(airway_child_removal_components(&plan, 1, &fix("BRAVO"))),
        (AppErrorKind::UnsupportedOperation, "Only airway endpoints can be removed.".to_string())
    );
    assert_eq!(
        message(airway_child_removal_components(&plan, 1, &fix("NOPE"))),
        (
            AppErrorKind::InvalidFlightPlan,
            "airway child waypoint is not in component: NOPE".to_string()
        )
    );
    let rs = airway_child_removal_components(&plan, 1, &fix("ALPHA")).unwrap();
    assert_eq!(uids(&rs), vec![some("u0"), some("u1"), some("u2")]);
    assert_eq!(rs[1].component, RouteComponent::Airway { airway: airway("V23", fix("BRAVO"), fix("GAMMA")) });
    assert_eq!(rs[1].preserved_legs.as_ref().map(|l| l[0].id.clone()), Some("v23-2".to_string()));

    let rs = airway_child_removal_components(&plan, 1, &fix("GAMMA")).unwrap();
    assert_eq!(rs[1].component, RouteComponent::Airway { airway: airway("V23", fix("ALPHA"), fix("BRAVO")) });
}

#[test]
fn an_airway_exit_is_made_explicit_before_the_next_component() {
    let plan = airway_plan();
    let rs = airway_exit_materialization_components(&plan, 2).unwrap().unwrap();
    assert_eq!(uids(&rs), vec![some("u0"), some("u1"), None, some("u2")]);
    assert_eq!(rs[2].component, waypoint(fix("GAMMA")));
    assert!(airway_exit_materialization_components(&plan, 1).unwrap().is_none());
    assert_eq!(
        message(airway_exit_materialization_components(&plan, 0)),
        (AppErrorKind::UnsupportedOperation, "target component has no predecessor".to_string())
    );
}

#[test]
fn moving_a_component_back_restores_the_route_order() {
    let original = four_waypoints();
    let moved = move_components(&original, 0, 2).unwrap().unwrap();
    let mut after = original.clone();
    after.route_components = moved.iter().map(|r| r.component.clone()).collect();
    after.route_component_uids = moved.iter().map(|r| r.uid.clone().unwrap()).collect();
    let back = move_components(&after, 2, -2).unwrap().unwrap();
    assert_eq!(uids(&back), vec![some("u0"), some("u1"), some("u2"), some("u3")]);
    let components: Vec<RouteComponent> = back.iter().map(|r| r.component.clone()).collect();
    assert_eq!(components, original.route_components);
}
