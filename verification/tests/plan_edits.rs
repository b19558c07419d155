use app_core::attachment::attached_procedure_component_index;
use app_core::component_views::project_component_ui_views;
use app_core::direct_to::{active_component_index_for_guidance, identity_rows};
use app_core::flight_plan::{FlightPlan, LegDisplayPath, ProcedureLegProvenance, ResolvedLeg};
use app_core::guidance::{
    GuidanceState, LegDisplayPathStyle, ProcedureSegmentRole, ResolvedLegSource, SequencingMode,
};
use app_core::nav::{AirportId, NavRef};
use app_core::plan_edits::{
    rebuild_plan_with_nav_materializations, validate_materialized_procedure_final_route,
    MaterializedProcedure, can_remove_component, change_airway_entry, change_airway_exit, change_procedure_enroute_transition,
    change_procedure_runway_transition, delete_component, delete_waypoint_component,
    flatten_component_to_waypoints, insert_airport_waypoint, insert_airway_after_waypoint,
    insert_airway_between_waypoints, insert_departure_after_airport,
    insert_initial_procedure_before_airport, insert_procedure_between_waypoints,
    insert_terminal_procedure_before_airport, insert_waypoint, move_component, remove_all_above,
    remove_airway_child_waypoint, replace_airway_component, replace_procedure_component,
};
use app_core::plan_rebuild::restore_flight_plan_definition;
use app_core::projection::project_display_rows;
use app_core::rebuild::rebuild_resolved_legs_with_grouped_components;
use app_core::route::{
    validate_procedure_attachments, AirwaySegment, AppErrorKind, PathTermination,
    ProcedureDiscontinuity, ProcedureKind, ProcedureSegment, RouteComponent,
};
use app_core::row_actions::{FlightPlanRowActionId, FlightPlanRowActionUiView};
use app_core::rows::RouteComponentUiView;
use app_core::sequencing::{activate_leg, active_guidance_leg};

fn leg(id: &str, from: NavRef, to: NavRef, component_index: usize) -> ResolvedLeg {
    ResolvedLeg {
        id: id.to_string(),
        from,
        to,
        source: ResolvedLegSource::RouteComponent { component_index },
        procedure_provenance: None,
    }
}

fn waypoint(nav_ref: NavRef) -> RouteComponent {
    RouteComponent::Waypoint { waypoint: nav_ref }
}

fn airport(id: &str) -> NavRef {
    NavRef::Airport(id.to_string())
}

fn fix(id: &str) -> NavRef {
    NavRef::Fix(id.to_string())
}

fn navaid(id: &str) -> NavRef {
    NavRef::Navaid(id.to_string())
}

fn plan_of(
    id: &str,
    name: &str,
    route_components: Vec<RouteComponent>,
    resolved_legs: Vec<ResolvedLeg>,
    departure: Option<&str>,
    destination: Option<&str>,
) -> FlightPlan {
    FlightPlan {
        id: id.to_string(),
        name: name.to_string(),
        route_components,
        route_component_uids: Vec::new(),
        route_component_uid_counter: 0,
        resolved_legs,
        guidance: None,
        departure: departure.map(|a| AirportId(a.to_string())),
        destination: destination.map(|a| AirportId(a.to_string())),
        alternate: None,
        cruise_altitude_ft: None,
        planned_departure_time_epoch_ms: None,
        notes: None,
        updated_at_epoch_ms: 0,
        version: 1,
    }
}

fn with_components(route_components: Vec<RouteComponent>) -> FlightPlan {
    FlightPlan { route_components, ..FlightPlan::empty() }
}

fn airway_segment(name: &str, branch_key: &str, entry: NavRef, exit: NavRef) -> AirwaySegment {
    AirwaySegment { name: name.to_string(), branch_key: Some(branch_key.to_string()), entry, exit }
}

fn sample_airway_component_plan() -> FlightPlan {
    plan_of(
        "plan-1",
        "Airway",
        vec![
            waypoint(airport("KBOS")),
            RouteComponent::Airway { airway: airway_segment("V16", "V16-A", fix("DODGR"), fix("PDZ")) },
            waypoint(airport("KJFK")),
        ],
        vec![leg("airway-0", fix("DODGR"), fix("LAHAB"), 1), leg("airway-1", fix("LAHAB"), fix("PDZ"), 1)],
        Some("KBOS"),
        Some("KJFK"),
    )
}

fn sample_seeded_reorder_plan() -> FlightPlan {
    let route_components = vec![
        waypoint(airport("KRNT")),
        RouteComponent::Airway { airway: airway_segment("V23", "V23-A", navaid("SEA"), fix("RAWER")) },
        waypoint(airport("KUAO")),
        waypoint(airport("KRDD")),
    ];
    let grouped = vec![
        None,
        Some(vec![
            leg("v23-0", navaid("SEA"), fix("BTG"), 1),
            leg("v23-1", fix("BTG"), fix("VAMPS"), 1),
            leg("v23-2", fix("VAMPS"), fix("RAWER"), 1),
        ]),
        None,
        None,
    ];
    let resolved_legs = rebuild_resolved_legs_with_grouped_components(&route_components, &grouped);
    plan_of("plan-seeded", "Seeded", route_components, resolved_legs, Some("KRNT"), Some("KRDD"))
}

fn sample_waypoint_only_plan() -> FlightPlan {
    plan_of(
        "plan-2",
        "Waypoint only",
        vec![waypoint(airport("KRNT")), waypoint(airport("KUAO")), waypoint(airport("KHIO"))],
        vec![
            leg("component-0-1", airport("KRNT"), airport("KUAO"), 0),
            leg("component-1-2", airport("KUAO"), airport("KHIO"), 1),
        ],
        Some("KRNT"),
        Some("KHIO"),
    )
}

fn sample_inserted_airway() -> (AirwaySegment, Vec<ResolvedLeg>) {
    (
        airway_segment("V2", "V2-A", navaid("SEA"), fix("VAMPS")),
        vec![
            leg("airway-V2-A-0", navaid("SEA"), fix("SUMMA"), 99),
            leg("airway-V2-A-1", fix("SUMMA"), fix("VAMPS"), 99),
        ],
    )
}

fn sample_task_6_route_plan() -> FlightPlan {
    let route_components = vec![
        waypoint(airport("KRNT")),
        RouteComponent::Airway { airway: airway_segment("V2", "V2", navaid("SEA"), navaid("ELN")) },
        waypoint(airport("KYKM")),
    ];
    let grouped = vec![
        None,
        Some(vec![
            leg("airway-V2-0", navaid("SEA"), fix("VAMPS"), 1),
            leg("airway-V2-1", fix("VAMPS"), fix("BANDR"), 1),
            leg("airway-V2-2", fix("BANDR"), navaid("ELN"), 1),
        ]),
        None,
    ];
    let resolved_legs = rebuild_resolved_legs_with_grouped_components(&route_components, &grouped);
    plan_of("task-6", "KRNT SEA V2 ELN KYKM", route_components, resolved_legs, Some("KRNT"), Some("KYKM"))
        .normalized()
}

fn sid(airport_id: &str, procedure_id: &str, enroute: &str) -> ProcedureSegment {
    ProcedureSegment {
        airport_id: AirportId(airport_id.to_string()),
        procedure_id: procedure_id.to_string(),
        display_label: None,
        kind: ProcedureKind::Sid,
        runway_transition: None,
        enroute_transition: Some(enroute.to_string()),
        terminal_discontinuity: Some(ProcedureDiscontinuity::Vectors),
        data_quality: Vec::new(),
    }
}

fn sample_inserted_procedure() -> (ProcedureSegment, Vec<ResolvedLeg>) {
    (
        sid("KRNT", "AUTTO1", "COLTS"),
        vec![
            leg("proc-autto1-0", fix("COLTS"), fix("BOREK"), 99),
            leg("proc-autto1-1", fix("BOREK"), fix("AXXIS"), 99),
            leg("proc-autto1-2", fix("AXXIS"), fix("GIGGY"), 99),
        ],
    )
}

fn sample_replaced_procedure() -> (ProcedureSegment, Vec<ResolvedLeg>) {
    (
        sid("KRNT", "AUTTO1", "PICUP"),
        vec![
            leg("proc-autto1-p0", fix("PICUP"), fix("AXXIS"), 99),
            leg("proc-autto1-p1", fix("AXXIS"), fix("GIGGY"), 99),
        ],
    )
}

fn sample_retargeted_airway() -> (AirwaySegment, Vec<ResolvedLeg>) {
    (
        airway_segment("V2", "V2-A", fix("OLM"), fix("BTG")),
        vec![
            leg("airway-V2-A-r0", fix("OLM"), fix("SUMMA"), 99),
            leg("airway-V2-A-r1", fix("SUMMA"), fix("BTG"), 99),
        ],
    )
}

fn sample_v165_plan_with_explicit_endpoints() -> FlightPlan {
    let airway = airway_segment("V165", "V165-0", navaid("OLM"), fix("RAWER"));
    let points = vec![navaid("OLM"), fix("CETRA"), fix("HOKBO"), fix("UBG"), fix("RAWER")];
    let airway_legs: Vec<ResolvedLeg> = points
        .windows(2)
        .enumerate()
        .map(|(index, pair)| leg(&format!("airway-v165-{index}"), pair[0].clone(), pair[1].clone(), 2))
        .collect();
    let mut resolved_legs = vec![leg("component-0-1", airport("KOLM"), navaid("OLM"), 0)];
    resolved_legs.extend(airway_legs);
    resolved_legs.push(leg("component-3-4", fix("RAWER"), airport("KUAO"), 3));
    plan_of(
        "plan-v165",
        "V165 explicit endpoints",
        vec![
            waypoint(airport("KOLM")),
            waypoint(navaid("OLM")),
            RouteComponent::Airway { airway },
            waypoint(fix("RAWER")),
            waypoint(airport("KUAO")),
        ],
        resolved_legs,
        None,
        None,
    )
    .normalized()
}

fn sample_two_waypoint_plan() -> FlightPlan {
    plan_of(
        "plan-2pt",
        "Two waypoint",
        vec![waypoint(airport("KRNT")), waypoint(airport("KUAO"))],
        vec![leg("component-0-1", airport("KRNT"), airport("KUAO"), 0)],
        Some("KRNT"),
        Some("KUAO"),
    )
}

fn sample_four_waypoint_plan() -> FlightPlan {
    plan_of(
        "plan-4pt",
        "Four waypoint",
        vec![
            waypoint(airport("KRNT")),
            waypoint(airport("KBFI")),
            waypoint(airport("KPAE")),
            waypoint(airport("KPDX")),
        ],
        vec![
            leg("component-0-1", airport("KRNT"), airport("KBFI"), 0),
            leg("component-1-2", airport("KBFI"), airport("KPAE"), 1),
            leg("component-2-3", airport("KPAE"), airport("KPDX"), 2),
        ],
        Some("KRNT"),
        Some("KPDX"),
    )
}

fn sample_single_component_plan() -> FlightPlan {
    plan_of("plan-1pt", "Single waypoint", vec![waypoint(airport("KRNT"))], Vec::new(), Some("KRNT"), None)
}

fn procedure_component(kind: ProcedureKind, airport_id: &str) -> RouteComponent {
    let procedure_id = match kind {
        ProcedureKind::Sid => "TEST1",
        ProcedureKind::Star => "TEST2",
        ProcedureKind::Approach => "TEST3",
    };
    RouteComponent::Procedure {
        procedure: ProcedureSegment {
            airport_id: AirportId(airport_id.to_string()),
            procedure_id: procedure_id.to_string(),
            display_label: None,
            kind,
            runway_transition: None,
            enroute_transition: None,
            terminal_discontinuity: None,
            data_quality: Vec::new(),
        },
    }
}

fn plan_with_all_attached_procedures() -> FlightPlan {
    with_components(vec![
        waypoint(airport("KSEA")),
        procedure_component(ProcedureKind::Sid, "KSEA"),
        waypoint(fix("ENRTE")),
        procedure_component(ProcedureKind::Star, "KPAE"),
        procedure_component(ProcedureKind::Approach, "KPAE"),
        waypoint(airport("KPAE")),
    ])
    .normalized()
}

fn projected_components_for_test(plan: &FlightPlan) -> Vec<RouteComponentUiView> {
    let plan = plan.clone().normalized();
    let rows = identity_rows(&plan);
    let active = plan
        .guidance
        .as_ref()
        .and_then(|guidance| active_component_index_for_guidance(&plan, &rows, guidance));
    let removable = vec![true; plan.route_components.len()];
    project_component_ui_views(&plan, active, &removable)
}

fn row_action_for_component(
    plan: &FlightPlan,
    component_index: usize,
    action_id: FlightPlanRowActionId,
) -> FlightPlanRowActionUiView {
    let plan = plan.clone().normalized();
    let components = projected_components_for_test(&plan);
    project_display_rows(&plan, &components)
        .iter()
        .find(|row| row.component_index == Some(component_index) && row.depth == 0)
        .and_then(|row| row.action_matrix.iter().flatten().find(|action| action.id == action_id))
        .cloned()
        .expect("flight-plan row action")
}

fn follow_plan(active_leg_index: usize, split: Option<&str>) -> GuidanceState {
    GuidanceState {
        active_leg_index,
        active_detail_index: Some(active_leg_index),
        display_split_leg_id: split.map(|s| s.to_string()),
        sequencing_mode: SequencingMode::FollowPlan,
        direct_to: None,
        suspend_reason: None,
    }
}

fn airway_inserted_plan() -> FlightPlan {
    insert_airway_between_waypoints(
        sample_waypoint_only_plan(),
        0,
        1,
        sample_inserted_airway().0,
        sample_inserted_airway().1,
    )
    .unwrap()
}

fn procedure_inserted_plan() -> FlightPlan {
    insert_procedure_between_waypoints(
        sample_waypoint_only_plan(),
        0,
        1,
        sample_inserted_procedure().0,
        sample_inserted_procedure().1,
    )
    .unwrap()
}

#[test]
fn delete_waypoint_component_rejects_grouped_components() {
    let err = delete_waypoint_component(sample_airway_component_plan(), 1).unwrap_err();
    assert_eq!(err.kind, AppErrorKind::UnsupportedOperation);
}

#[test]
fn flatten_component_replaces_grouped_component_with_explicit_waypoints() {
    let flattened = flatten_component_to_waypoints(
        sample_airway_component_plan(),
        1,
        vec![fix("DODGR"), fix("LAHAB"), fix("PDZ")],
    )
    .unwrap();

    assert_eq!(flattened.route_components.len(), 5);
    assert!(matches!(flattened.route_components[1], RouteComponent::Waypoint { .. }));
    assert_eq!(flattened.resolved_legs.len(), 4);
}

#[test]
fn insert_airway_between_waypoints_keeps_airway_atomic_and_bridges_resolved_route() {
    let (airway, airway_legs) = sample_inserted_airway();
    let inserted =
        insert_airway_between_waypoints(sample_waypoint_only_plan(), 0, 1, airway, airway_legs).unwrap();

    assert_eq!(inserted.route_components.len(), 4);
    assert!(matches!(inserted.route_components[1], RouteComponent::Airway { .. }));
    assert_eq!(inserted.resolved_legs.len(), 5);
    assert_eq!(inserted.resolved_legs[0].from, airport("KRNT"));
    assert_eq!(inserted.resolved_legs[0].to, navaid("SEA"));
    assert_eq!(inserted.resolved_legs[3].from, fix("VAMPS"));
    assert_eq!(inserted.resolved_legs[3].to, airport("KUAO"));
    assert_eq!(inserted.resolved_legs[4].from, airport("KUAO"));
    assert_eq!(inserted.resolved_legs[4].to, airport("KHIO"));
}

#[test]
fn insert_airway_between_waypoints_does_not_duplicate_matching_boundaries() {
    let mut plan = sample_waypoint_only_plan();
    plan.route_components[1] = waypoint(fix("VAMPS"));
    plan.resolved_legs[0].to = fix("VAMPS");
    let airway = airway_segment("V2", "V2-A", airport("KRNT"), fix("VAMPS"));
    let airway_legs = vec![leg("airway-V2-A-0", airport("KRNT"), fix("VAMPS"), 88)];

    let inserted = insert_airway_between_waypoints(plan, 0, 1, airway, airway_legs).unwrap();

    assert_eq!(inserted.route_components.len(), 2);
    assert!(matches!(inserted.route_components[0], RouteComponent::Airway { .. }));
    assert!(matches!(
        &inserted.route_components[1],
        RouteComponent::Waypoint { waypoint: NavRef::Airport(id) } if id == "KHIO"
    ));
}

#[test]
fn insert_airway_between_waypoints_rejects_grouped_components_inside_replaced_span() {
    let mut plan = sample_waypoint_only_plan();
    plan.route_components.insert(
        1,
        RouteComponent::Airway { airway: airway_segment("J1", "J1-A", fix("A"), fix("B")) },
    );
    let (airway, airway_legs) = sample_inserted_airway();

    let err = insert_airway_between_waypoints(plan, 0, 2, airway, airway_legs).unwrap_err();
    assert_eq!(err.kind, AppErrorKind::UnsupportedOperation);
}

#[test]
fn insert_airway_between_waypoints_rejects_non_waypoint_boundaries() {
    let (airway, airway_legs) = sample_inserted_airway();
    let err =
        insert_airway_between_waypoints(sample_airway_component_plan(), 0, 1, airway, airway_legs)
            .unwrap_err();
    assert_eq!(err.kind, AppErrorKind::UnsupportedOperation);
}

#[test]
fn insert_airway_between_waypoints_preserves_grouped_components_outside_span() {
    let mut plan = sample_waypoint_only_plan();
    plan.route_components.push(RouteComponent::Airway {
        airway: airway_segment("J1", "J1-A", fix("FOO"), fix("BAR")),
    });
    plan.route_components.push(waypoint(airport("KPDX")));
    plan.resolved_legs.push(leg("j1-0", fix("FOO"), fix("BAR"), 3));
    let (airway, airway_legs) = sample_inserted_airway();

    let inserted = insert_airway_between_waypoints(plan, 0, 1, airway, airway_legs).unwrap();

    assert!(inserted.route_components.iter().any(|component| matches!(
        component,
        RouteComponent::Airway { airway } if airway.name == "J1"
    )));
    assert!(inserted.resolved_legs.iter().any(|leg| leg.id == "j1-0"));
}

#[test]
fn insert_airway_between_waypoints_requires_increasing_span() {
    let (airway, airway_legs) = sample_inserted_airway();
    let err =
        insert_airway_between_waypoints(sample_waypoint_only_plan(), 1, 1, airway, airway_legs).unwrap_err();
    assert_eq!(err.kind, AppErrorKind::UnsupportedOperation);
}

#[test]
fn replace_airway_component_keeps_atomic_slot_and_updates_bridges() {
    let plan = airway_inserted_plan();
    let (airway, airway_legs) = sample_retargeted_airway();

    let replaced = replace_airway_component(plan, 1, airway, airway_legs).unwrap();

    assert_eq!(replaced.route_components.len(), 4);
    assert!(matches!(replaced.route_components[1], RouteComponent::Airway { .. }));
    assert_eq!(replaced.resolved_legs[0].from, airport("KRNT"));
    assert_eq!(replaced.resolved_legs[0].to, fix("OLM"));
    assert_eq!(replaced.resolved_legs[3].from, fix("BTG"));
    assert_eq!(replaced.resolved_legs[3].to, airport("KUAO"));
    assert!(replaced.guidance.is_none());
}

#[test]
fn change_airway_entry_preserves_airway_identity_and_updates_entry_bridge() {
    let plan = airway_inserted_plan();
    let (_, retargeted_legs) = sample_retargeted_airway();

    let changed = change_airway_entry(plan, 1, fix("OLM"), retargeted_legs).unwrap();

    let RouteComponent::Airway { airway } = &changed.route_components[1] else {
        panic!("expected airway");
    };
    assert_eq!(airway.name, "V2");
    assert_eq!(airway.branch_key.as_deref(), Some("V2-A"));
    assert_eq!(airway.entry, fix("OLM"));
    assert_eq!(airway.exit, fix("VAMPS"));
    assert_eq!(changed.resolved_legs[0].to, fix("OLM"));
}

#[test]
fn change_airway_exit_preserves_airway_identity_and_updates_exit_bridge() {
    let plan = airway_inserted_plan();
    let airway_legs = vec![
        leg("airway-V2-A-e0", navaid("SEA"), fix("SUMMA"), 99),
        leg("airway-V2-A-e1", fix("SUMMA"), fix("BTG"), 99),
    ];

    let changed = change_airway_exit(plan, 1, fix("BTG"), airway_legs).unwrap();

    let RouteComponent::Airway { airway } = &changed.route_components[1] else {
        panic!("expected airway");
    };
    assert_eq!(airway.name, "V2");
    assert_eq!(airway.branch_key.as_deref(), Some("V2-A"));
    assert_eq!(airway.entry, navaid("SEA"));
    assert_eq!(airway.exit, fix("BTG"));
    assert_eq!(changed.resolved_legs[3].from, fix("BTG"));
    assert_eq!(changed.resolved_legs[3].to, airport("KUAO"));
}

#[test]
fn replace_airway_component_can_swap_airway_identity() {
    let plan = airway_inserted_plan();
    let replacement = airway_segment("J1", "J1-A", fix("SEA"), fix("BTG"));
    let replacement_legs = vec![leg("j1-r0", fix("SEA"), fix("BTG"), 99)];

    let replaced = replace_airway_component(plan, 1, replacement, replacement_legs).unwrap();

    let RouteComponent::Airway { airway } = &replaced.route_components[1] else {
        panic!("expected airway");
    };
    assert_eq!(airway.name, "J1");
    assert_eq!(airway.branch_key.as_deref(), Some("J1-A"));
}

#[test]
fn replace_airway_component_rejects_non_airway_slot() {
    let (airway, airway_legs) = sample_inserted_airway();
    let err = replace_airway_component(sample_waypoint_only_plan(), 0, airway, airway_legs).unwrap_err();
    assert_eq!(err.kind, AppErrorKind::UnsupportedOperation);
}

#[test]
fn replace_airway_component_rejects_empty_leg_set() {
    let plan = airway_inserted_plan();
    let err = replace_airway_component(
        plan,
        1,
        airway_segment("V2", "V2-A", fix("OLM"), fix("BTG")),
        Vec::new(),
    )
    .unwrap_err();
    assert_eq!(err.kind, AppErrorKind::InvalidFlightPlan);
}

#[test]
fn insert_procedure_between_waypoints_keeps_procedure_atomic_and_blocks_outbound_bridge_on_gap() {
    let (procedure, procedure_legs) = sample_inserted_procedure();

    let inserted =
        insert_procedure_between_waypoints(sample_waypoint_only_plan(), 0, 1, procedure, procedure_legs)
            .unwrap();

    assert_eq!(inserted.route_components.len(), 4);
    assert!(matches!(inserted.route_components[1], RouteComponent::Procedure { .. }));
    assert_eq!(inserted.resolved_legs.len(), 4);
    assert_eq!(inserted.resolved_legs[0].from, fix("COLTS"));
    assert_eq!(inserted.resolved_legs[0].to, fix("BOREK"));
    assert_eq!(inserted.resolved_legs[2].to, fix("GIGGY"));
    assert!(inserted.resolved_legs.iter().all(|leg| leg.to != airport("KUAO")));
}

#[test]
fn insert_procedure_between_waypoints_preserves_active_guidance_before_insertion() {
    let mut plan = sample_four_waypoint_plan();
    plan.guidance = Some(GuidanceState { active_detail_index: Some(0), ..follow_plan(0, None) });
    let (mut procedure, procedure_legs) = sample_inserted_procedure();
    procedure.kind = ProcedureKind::Approach;
    procedure.airport_id = AirportId("KPDX".to_string());
    procedure.terminal_discontinuity = None;

    let inserted = insert_procedure_between_waypoints(plan, 2, 3, procedure, procedure_legs).unwrap();

    let guidance =
        inserted.guidance.as_ref().expect("procedure insertion should not drop active guidance");
    assert_eq!(guidance.active_leg_index, 0);
    assert_eq!(guidance.active_detail_index, Some(0));
    assert_eq!(inserted.resolved_legs[guidance.active_leg_index].to, airport("KBFI"));
}

#[test]
fn insert_procedure_between_waypoints_rejects_grouped_components_inside_replaced_span() {
    let mut plan = sample_waypoint_only_plan();
    plan.route_components.insert(
        1,
        RouteComponent::Airway { airway: airway_segment("J1", "J1-A", fix("A"), fix("B")) },
    );
    let (procedure, procedure_legs) = sample_inserted_procedure();

    let err = insert_procedure_between_waypoints(plan, 0, 2, procedure, procedure_legs).unwrap_err();
    assert_eq!(err.kind, AppErrorKind::UnsupportedOperation);
}

#[test]
fn replace_procedure_component_updates_entry_bridge_and_keeps_atomic_slot() {
    let inserted = procedure_inserted_plan();
    let (replacement, replacement_legs) = sample_replaced_procedure();

    let replaced = replace_procedure_component(inserted, 1, replacement, replacement_legs).unwrap();

    assert!(matches!(replaced.route_components[1], RouteComponent::Procedure { .. }));
    assert_eq!(replaced.resolved_legs[0].from, fix("PICUP"));
    assert_eq!(replaced.resolved_legs[1].to, fix("GIGGY"));
    assert!(replaced.resolved_legs.iter().all(|leg| leg.to != airport("KUAO")));
    assert!(replaced.guidance.is_none());
}

#[test]
fn change_procedure_enroute_transition_preserves_identity_and_updates_spec() {
    let inserted = procedure_inserted_plan();
    let (_, replacement_legs) = sample_replaced_procedure();

    let changed =
        change_procedure_enroute_transition(inserted, 1, Some("PICUP".to_string()), replacement_legs)
            .unwrap();

    let RouteComponent::Procedure { procedure } = &changed.route_components[1] else {
        panic!("expected procedure");
    };
    assert_eq!(procedure.procedure_id, "AUTTO1");
    assert_eq!(procedure.enroute_transition.as_deref(), Some("PICUP"));
    assert_eq!(changed.resolved_legs[0].from, fix("PICUP"));
}

#[test]
fn change_procedure_runway_transition_preserves_identity_and_updates_spec() {
    let plan = plan_of(
        "plan-star",
        "STAR",
        vec![
            waypoint(fix("ARD")),
            RouteComponent::Procedure {
                procedure: ProcedureSegment {
                    airport_id: AirportId("47N".to_string()),
                    procedure_id: "CENTR1".to_string(),
                    display_label: None,
                    kind: ProcedureKind::Star,
                    runway_transition: Some("RW07".to_string()),
                    enroute_transition: None,
                    terminal_discontinuity: Some(ProcedureDiscontinuity::Vectors),
                    data_quality: Vec::new(),
                },
            },
            waypoint(airport("47N")),
        ],
        vec![leg("star-0", fix("ARD"), fix("DYLIN"), 1), leg("star-1", fix("DYLIN"), fix("METRO"), 1)],
        None,
        Some("47N"),
    );
    let replacement_legs = vec![
        leg("star-rw25-0", fix("ARD"), fix("DYLIN"), 99),
        leg("star-rw25-1", fix("DYLIN"), fix("METRO"), 99),
    ];

    let changed =
        change_procedure_runway_transition(plan, 1, Some("RW25".to_string()), replacement_legs).unwrap();

    let RouteComponent::Procedure { procedure } = &changed.route_components[1] else {
        panic!("expected procedure");
    };
    assert_eq!(procedure.procedure_id, "CENTR1");
    assert_eq!(procedure.runway_transition.as_deref(), Some("RW25"));
}

#[test]
fn replace_procedure_component_rejects_non_procedure_slot() {
    let (procedure, procedure_legs) = sample_inserted_procedure();
    let err =
        replace_procedure_component(sample_waypoint_only_plan(), 0, procedure, procedure_legs).unwrap_err();
    assert_eq!(err.kind, AppErrorKind::UnsupportedOperation);
}

#[test]
fn terminal_procedure_insertion_orders_and_finds_star_and_approach_independently() {
    let plan = sample_waypoint_only_plan();
    let (mut arrival, arrival_legs) = sample_inserted_procedure();
    arrival.kind = ProcedureKind::Star;
    arrival.airport_id = AirportId("KHIO".to_string());
    arrival.terminal_discontinuity = None;
    let with_arrival =
        insert_terminal_procedure_before_airport(plan, 2, arrival, arrival_legs).expect("insert arrival");

    let (mut approach, approach_legs) = sample_replaced_procedure();
    approach.kind = ProcedureKind::Approach;
    approach.airport_id = AirportId("KHIO".to_string());
    approach.terminal_discontinuity = None;
    let complete = insert_terminal_procedure_before_airport(with_arrival, 3, approach, approach_legs)
        .expect("insert approach after arrival");

    assert!(matches!(
        complete.route_components[2],
        RouteComponent::Procedure { ref procedure } if procedure.kind == ProcedureKind::Star
    ));
    assert!(matches!(
        complete.route_components[3],
        RouteComponent::Procedure { ref procedure } if procedure.kind == ProcedureKind::Approach
    ));
    assert_eq!(attached_procedure_component_index(&complete, 4, ProcedureKind::Star), Some(2));
    assert_eq!(attached_procedure_component_index(&complete, 4, ProcedureKind::Approach), Some(3));
    assert!(row_action_for_component(&complete, 4, FlightPlanRowActionId::SelectArrival).enabled);
    assert!(row_action_for_component(&complete, 4, FlightPlanRowActionId::SelectApproach).enabled);
}

#[test]
fn deleting_an_endpoint_also_deletes_its_attached_procedures() {
    let plan = plan_with_all_attached_procedures();

    let without_origin = delete_waypoint_component(plan.clone(), 0).expect("delete origin");
    assert!(without_origin.route_components.iter().all(|component| {
        !matches!(
            component,
            RouteComponent::Procedure { procedure } if procedure.kind == ProcedureKind::Sid
        )
    }));

    let without_destination = delete_waypoint_component(plan, 5).expect("delete destination");
    assert!(without_destination.route_components.iter().all(|component| {
        !matches!(
            component,
            RouteComponent::Procedure { procedure }
                if matches!(procedure.kind, ProcedureKind::Star | ProcedureKind::Approach)
        )
    }));
}

#[test]
fn delete_component_allows_reducing_to_single_top_level_waypoint() {
    let deleted = delete_component(sample_two_waypoint_plan(), 1).unwrap();

    assert_eq!(deleted.route_components.len(), 1);
    assert!(deleted.resolved_legs.is_empty());
    let components = projected_components_for_test(&deleted);
    assert!(components[0].can_remove);
    assert!(!components[0].can_reorder);
}

#[test]
fn remove_all_above_removes_selected_component_and_preceding_route() {
    let trimmed = remove_all_above(sample_four_waypoint_plan(), 2).unwrap();

    assert_eq!(trimmed.route_components.len(), 1);
    assert!(matches!(
        trimmed.route_components[0],
        RouteComponent::Waypoint { waypoint: NavRef::Airport(ref id) } if id == "KPDX"
    ));
    assert!(trimmed.resolved_legs.is_empty());
}

#[test]
fn remove_all_above_procedure_headers_preserves_attachment_invariants() {
    let plan = plan_with_all_attached_procedures();

    let without_departure = remove_all_above(plan.clone(), 1).expect("remove departure and origin");
    assert!(matches!(
        without_departure.route_components.first(),
        Some(RouteComponent::Waypoint { waypoint: NavRef::Fix(id) }) if id == "ENRTE"
    ));
    validate_procedure_attachments(&without_departure.route_components)
        .expect("remaining arrival and approach stay attached");

    let without_arrival = remove_all_above(plan.clone(), 3).expect("remove through arrival");
    assert!(matches!(
        without_arrival.route_components.as_slice(),
        [
            RouteComponent::Procedure { procedure: ProcedureSegment { kind: ProcedureKind::Approach, .. } },
            RouteComponent::Waypoint { waypoint: NavRef::Airport(id) }
        ] if id == "KPAE"
    ));
    validate_procedure_attachments(&without_arrival.route_components)
        .expect("remaining approach stays attached");

    let without_approach = remove_all_above(plan, 4).expect("remove through approach");
    assert!(matches!(
        without_approach.route_components.as_slice(),
        [RouteComponent::Waypoint { waypoint: NavRef::Airport(id) }] if id == "KPAE"
    ));
    validate_procedure_attachments(&without_approach.route_components)
        .expect("destination alone is valid");
}

#[test]
fn route_component_uids_survive_reorder_and_delete() {
    let plan = sample_four_waypoint_plan().normalized();
    let original_uids = plan.route_component_uids.clone();

    let moved = move_component(plan, 0, 2).unwrap();
    assert_eq!(
        moved.route_component_uids,
        vec![
            original_uids[1].clone(),
            original_uids[2].clone(),
            original_uids[0].clone(),
            original_uids[3].clone(),
        ]
    );

    let deleted = delete_component(moved, 1).unwrap();
    assert_eq!(
        deleted.route_component_uids,
        vec![original_uids[1].clone(), original_uids[0].clone(), original_uids[3].clone()]
    );
}

#[test]
fn deleting_row_before_active_airway_leg_preserves_active_leg_identity() {
    let plan = sample_task_6_route_plan();
    let sea_to_vamps_index = plan
        .resolved_legs
        .iter()
        .position(|leg| leg.from == navaid("SEA") && leg.to == fix("VAMPS"))
        .expect("SEA to VAMPS leg");
    let active = activate_leg(plan, sea_to_vamps_index).expect("activate SEA -> VAMPS");

    let deleted = delete_component(active, 0).expect("delete KRNT row");
    let active_leg = active_guidance_leg(deleted).expect("active leg after delete");

    assert_eq!((active_leg.from, active_leg.to), (navaid("SEA"), fix("VAMPS")));
}

#[test]
fn insert_waypoint_allocates_new_route_component_uid_without_reusing_existing_ones() {
    let plan = sample_two_waypoint_plan().normalized();
    let original_uids = plan.route_component_uids.clone();

    let inserted = insert_waypoint(plan, 0, false, navaid("SEA")).unwrap();

    assert_eq!(inserted.route_component_uids.len(), 3);
    assert_eq!(inserted.route_component_uids[0], original_uids[0]);
    assert_eq!(inserted.route_component_uids[2], original_uids[1]);
    assert_ne!(inserted.route_component_uids[1], inserted.route_component_uids[0]);
    assert_ne!(inserted.route_component_uids[1], inserted.route_component_uids[2]);
}

#[test]
fn insert_airport_waypoint_adds_explicit_waypoint_before_or_after_component() {
    let inserted_before = insert_airport_waypoint(sample_two_waypoint_plan(), 1, true, " khio ").unwrap();
    assert_eq!(inserted_before.route_components[1], waypoint(airport("KHIO")));
    assert_eq!(inserted_before.resolved_legs[0].to, airport("KHIO"));
    assert_eq!(inserted_before.resolved_legs[1].from, airport("KHIO"));

    let inserted_after = insert_airport_waypoint(sample_two_waypoint_plan(), 0, false, "khio").unwrap();
    assert_eq!(inserted_after.route_components[1], waypoint(airport("KHIO")));
    assert_eq!(inserted_after.resolved_legs[0].to, airport("KHIO"));
    assert_eq!(inserted_after.resolved_legs[1].from, airport("KHIO"));
}

#[test]
fn insert_airway_after_waypoint_appends_atomic_airway_at_route_end() {
    let inserted = insert_airway_after_waypoint(
        sample_waypoint_only_plan(),
        2,
        sample_inserted_airway().0,
        sample_inserted_airway().1,
    )
    .unwrap();

    assert_eq!(inserted.route_components.len(), 4);
    assert!(matches!(inserted.route_components.last(), Some(RouteComponent::Airway { .. })));
    let last_leg = inserted.resolved_legs.last().unwrap();
    assert_eq!(last_leg.from, fix("SUMMA"));
    assert_eq!(last_leg.to, fix("VAMPS"));
}

#[test]
fn insert_airway_after_waypoint_preserves_existing_active_leg_guidance() {
    let mut plan = sample_waypoint_only_plan();
    plan.guidance = Some(GuidanceState { active_detail_index: Some(0), ..follow_plan(0, Some("component-0-1")) });

    let inserted =
        insert_airway_after_waypoint(plan, 2, sample_inserted_airway().0, sample_inserted_airway().1)
            .unwrap();

    let guidance = inserted.guidance.as_ref().expect("guidance preserved");
    assert_eq!(guidance.active_leg_index, 0);
    assert_eq!(guidance.active_detail_index, Some(0));
    assert_eq!(guidance.display_split_leg_id.as_deref(), Some("component-0-1"));
    let active_leg = active_guidance_leg(inserted).expect("active leg preserved");
    assert_eq!(active_leg.from, airport("KRNT"));
    assert_eq!(active_leg.to, airport("KUAO"));
}

#[test]
fn insert_initial_procedure_before_airport_allows_airport_only_route_to_load_approach() {
    let procedure = ProcedureSegment {
        airport_id: AirportId("KRNT".to_string()),
        procedure_id: "R16".to_string(),
        display_label: None,
        kind: ProcedureKind::Approach,
        runway_transition: None,
        enroute_transition: Some("JAWBN".to_string()),
        terminal_discontinuity: None,
        data_quality: Vec::new(),
    };
    let procedure_legs = vec![
        leg("procedure-R16-A-10", fix("JAWBN"), fix("KANGU"), 99),
        leg("procedure-R16-R-20", fix("KANGU"), airport("KRNT"), 99),
    ];

    let inserted =
        insert_initial_procedure_before_airport(sample_single_component_plan(), 0, procedure, procedure_legs)
            .unwrap();

    assert!(matches!(inserted.route_components[0], RouteComponent::Procedure { .. }));
    assert!(matches!(
        inserted.route_components[1],
        RouteComponent::Waypoint { waypoint: NavRef::Airport(ref airport) } if airport == "KRNT"
    ));
    assert_eq!(inserted.resolved_legs.len(), 2);
    assert!(inserted
        .resolved_legs
        .iter()
        .all(|leg| leg.source == ResolvedLegSource::RouteComponent { component_index: 0 }));
}

#[test]
fn insert_departure_after_origin_preserves_the_origin_and_remaining_route() {
    let plan = with_components(vec![waypoint(airport("KSEA")), waypoint(fix("BANGR")), waypoint(airport("KPAE"))]);
    let procedure = ProcedureSegment {
        airport_id: AirportId("KSEA".to_string()),
        procedure_id: "BANGR9".to_string(),
        display_label: Some("BANGR NINE (RNAV)".to_string()),
        kind: ProcedureKind::Sid,
        runway_transition: Some("RW16L".to_string()),
        enroute_transition: Some("BANGR".to_string()),
        terminal_discontinuity: None,
        data_quality: Vec::new(),
    };
    let procedure_legs = vec![leg("procedure-BANGR9-10", fix("RW16L"), fix("BANGR"), 99)];

    let inserted = insert_departure_after_airport(plan, 0, procedure, procedure_legs).unwrap();

    assert!(matches!(
        inserted.route_components.as_slice(),
        [
            RouteComponent::Waypoint { waypoint: NavRef::Airport(origin) },
            RouteComponent::Procedure { procedure },
            RouteComponent::Waypoint { waypoint: NavRef::Fix(exit) },
            RouteComponent::Waypoint { waypoint: NavRef::Airport(destination) },
        ] if origin == "KSEA"
            && procedure.kind == ProcedureKind::Sid
            && exit == "BANGR"
            && destination == "KPAE"
    ));
    assert_eq!(inserted.resolved_legs[0].from, fix("RW16L"));
    assert_eq!(inserted.resolved_legs.len(), 2);
    assert!(matches!(
        inserted.resolved_legs[0].source,
        ResolvedLegSource::RouteComponent { component_index: 1 }
    ));
    assert_eq!(inserted.resolved_legs[0].to, fix("BANGR"));
}

#[test]
fn move_component_round_trip_preserves_seeded_grouped_materialization() {
    let initial = sample_seeded_reorder_plan();
    let initial_components = projected_components_for_test(&initial);

    let moved_down_once = move_component(initial.clone(), 0, 1).unwrap();
    let moved_down_twice = move_component(moved_down_once, 1, 1).unwrap();
    let moved_to_bottom = move_component(moved_down_twice, 2, 1).unwrap();

    let moved_up_once = move_component(moved_to_bottom, 3, -1).unwrap();
    let moved_up_twice = move_component(moved_up_once, 2, -1).unwrap();
    let final_plan = move_component(moved_up_twice, 1, -1).unwrap();
    let final_components = projected_components_for_test(&final_plan);

    assert_eq!(final_components, initial_components);
    assert_eq!(final_plan.resolved_legs, initial.resolved_legs);
}

#[test]
fn remove_first_visible_airway_child_retargets_airway_entry() {
    let changed =
        remove_airway_child_waypoint(sample_v165_plan_with_explicit_endpoints(), 2, &fix("CETRA")).unwrap();

    let RouteComponent::Airway { airway } = &changed.route_components[2] else {
        panic!("expected airway");
    };
    assert_eq!(airway.entry, fix("HOKBO"));
    assert_eq!(airway.exit, fix("RAWER"));
    assert!(changed.resolved_legs.iter().any(|leg| leg.from == fix("HOKBO") && leg.to == fix("UBG")));
}

#[test]
fn remove_last_visible_airway_child_retargets_airway_exit() {
    let changed =
        remove_airway_child_waypoint(sample_v165_plan_with_explicit_endpoints(), 2, &fix("UBG")).unwrap();

    let RouteComponent::Airway { airway } = &changed.route_components[2] else {
        panic!("expected airway");
    };
    assert_eq!(airway.entry, navaid("OLM"));
    assert_eq!(airway.exit, fix("HOKBO"));
    assert!(changed.resolved_legs.iter().any(|leg| leg.from == fix("CETRA") && leg.to == fix("HOKBO")));
}

#[test]
fn a_materialized_procedure_is_checked_beside_its_airport() {
    let (procedure, legs) = sample_inserted_procedure();
    let departure = MaterializedProcedure { procedure, resolved_legs: legs };
    assert!(validate_materialized_procedure_final_route(&departure).is_ok());

    let (mut approach, approach_legs) = sample_replaced_procedure();
    approach.kind = ProcedureKind::Approach;
    approach.terminal_discontinuity = None;
    let approach = MaterializedProcedure { procedure: approach, resolved_legs: approach_legs };
    assert!(validate_materialized_procedure_final_route(&approach).is_ok());
}

#[test]
fn nav_materializations_replace_components_in_place_and_keep_their_uids() {
    let plan = sample_airway_component_plan().normalized();
    let uids = plan.route_component_uids.clone();
    let airway = airway_segment("V16", "V16-A", fix("DODGR"), fix("PDZ"));
    let legs = vec![leg("v16-new-0", fix("DODGR"), fix("PDZ"), 7)];
    let rebuilt = rebuild_plan_with_nav_materializations(
        plan,
        vec![(1, RouteComponent::Airway { airway: airway.clone() }, legs)],
    )
    .unwrap();
    assert_eq!(rebuilt.route_component_uids, uids);
    assert_eq!(rebuilt.route_components[1], RouteComponent::Airway { airway });
    assert_eq!(rebuilt.resolved_legs.len(), 3);
    assert_eq!(rebuilt.resolved_legs[1].id, "v16-new-0");
    assert_eq!(rebuilt.resolved_legs[1].source, ResolvedLegSource::RouteComponent { component_index: 1 });
    assert_eq!(rebuilt.resolved_legs[0].from, airport("KBOS"));
    assert_eq!(rebuilt.resolved_legs[2].to, airport("KJFK"));
}

#[test]
fn restoring_a_definition_carries_the_current_guidance_by_its_rows() {
    let mut current = sample_four_waypoint_plan().normalized();
    current.guidance = Some(follow_plan(1, None));
    let mut historical = current.clone();
    historical.guidance = None;
    historical.name = "Earlier".to_string();

    let restored = restore_flight_plan_definition(current, historical).unwrap();
    assert_eq!(restored.name, "Earlier");
    let guidance = restored.guidance.expect("guidance carried over");
    assert_eq!(guidance.active_leg_index, 1);
    assert_eq!(guidance.sequencing_mode, SequencingMode::FollowPlan);
}

#[test]
fn every_edited_plan_has_one_distinct_uid_per_component() {
    let plans = vec![
        insert_waypoint(sample_four_waypoint_plan(), 1, true, fix("NEW")).unwrap(),
        delete_component(sample_four_waypoint_plan(), 2).unwrap(),
        move_component(sample_four_waypoint_plan(), 3, -3).unwrap(),
        airway_inserted_plan(),
        procedure_inserted_plan(),
    ];
    for plan in plans {
        assert_eq!(plan.route_component_uids.len(), plan.route_components.len());
        for (i, a) in plan.route_component_uids.iter().enumerate() {
            assert!(!a.is_empty());
            for b in &plan.route_component_uids[i + 1..] {
                assert_ne!(a, b);
            }
        }
    }
}

#[test]
fn edits_refuse_what_their_checks_refuse_and_leave_guidance_out_when_replacing_procedures() {
    let err = delete_component(sample_two_waypoint_plan(), 5).unwrap_err();
    assert_eq!(err.kind, AppErrorKind::UnsupportedOperation);
    assert_eq!(err.message, "component index out of bounds: 5");
    let err = move_component(sample_two_waypoint_plan(), 0, -1).unwrap_err();
    assert_eq!(err.message, "component move out of bounds: 0 -> -1");
    let unmoved = move_component(sample_two_waypoint_plan(), 7, 0).unwrap();
    assert_eq!(unmoved.route_components.len(), 2);
    let err = insert_airport_waypoint(sample_two_waypoint_plan(), 0, true, "   ").unwrap_err();
    assert_eq!(err.message, "airport id is required");
    let mut guided = procedure_inserted_plan();
    guided.guidance = Some(follow_plan(0, None));
    let (replacement, legs) = sample_replaced_procedure();
    let replaced = replace_procedure_component(guided, 1, replacement, legs).unwrap();
    assert!(replaced.guidance.is_none());
}

#[test]
fn moving_a_component_and_back_restores_the_plan_route() {
    let plan = sample_four_waypoint_plan().normalized();
    let moved = move_component(plan.clone(), 0, 2).unwrap();
    assert_ne!(moved.route_components, plan.route_components);
    let back = move_component(moved, 2, -2).unwrap();
    assert_eq!(back.route_component_uids, plan.route_component_uids);
    assert_eq!(back.route_components, plan.route_components);
}

#[test]
fn a_default_plan_is_the_empty_plan() {
    assert_eq!(FlightPlan::default(), FlightPlan::empty());
}

fn procedure_leg_with_path(
    id: &str,
    from: NavRef,
    to: NavRef,
    role: ProcedureSegmentRole,
    path_termination: PathTermination,
    element_count: usize,
) -> ResolvedLeg {
    ResolvedLeg {
        id: id.to_string(),
        from,
        to,
        source: ResolvedLegSource::RouteComponent { component_index: 0 },
        procedure_provenance: Some(ProcedureLegProvenance {
            airport_id: "KCEC".to_string(),
            procedure_id: "I12".to_string(),
            kind: ProcedureKind::Approach,
            role,
            path_termination,
            leg_sequence: 0,
            discontinuity_after: None,
            display_path: Some(LegDisplayPath { style: LegDisplayPathStyle::Solid, element_count }),
        }),
    }
}

#[test]
fn route_rebuild_preserves_same_fix_procedure_turn_and_avoids_hairpin() {
    let components = vec![RouteComponent::Procedure {
        procedure: ProcedureSegment {
            airport_id: AirportId("KCEC".to_string()),
            procedure_id: "I12".to_string(),
            display_label: Some("ILS or LOC 12 CEC".to_string()),
            kind: ProcedureKind::Approach,
            runway_transition: None,
            enroute_transition: Some("CEC".to_string()),
            terminal_discontinuity: None,
            data_quality: Vec::new(),
        },
    }];
    let legs = vec![
        procedure_leg_with_path(
            "kcec-transition-to-slamm",
            navaid("CEC"),
            fix("SLAMM"),
            ProcedureSegmentRole::EnrouteTransition,
            PathTermination::TrackToFix,
            1,
        ),
        procedure_leg_with_path(
            "kcec-slamm-procedure-turn",
            fix("SLAMM"),
            fix("SLAMM"),
            ProcedureSegmentRole::EnrouteTransition,
            PathTermination::Other("PI".to_string()),
            4,
        ),
        procedure_leg_with_path(
            "kcec-slamm-to-common",
            fix("SLAMM"),
            fix("HUVMA"),
            ProcedureSegmentRole::Common,
            PathTermination::CourseToFix,
            1,
        ),
    ];
    let grouped = vec![Some(legs.clone())];

    let procedure = match &components[0] {
        RouteComponent::Procedure { procedure } => procedure.clone(),
        _ => unreachable!("fixture component is a procedure"),
    };
    let materialized = MaterializedProcedure { procedure, resolved_legs: legs };
    validate_materialized_procedure_final_route(&materialized)
        .expect("production rebuild preserves the explicit procedure turn");

    let rebuilt = rebuild_resolved_legs_with_grouped_components(&components, &grouped);

    assert_eq!(
        rebuilt.iter().map(|leg| leg.id.as_str()).collect::<Vec<_>>(),
        vec!["kcec-transition-to-slamm", "kcec-slamm-procedure-turn", "kcec-slamm-to-common"]
    );

    let plan = FlightPlan { route_components: components, resolved_legs: rebuilt, ..FlightPlan::empty() }
        .normalized();
    let projected_leg_indices: Vec<usize> =
        identity_rows(&plan).into_iter().filter_map(|row| row.leg_index).collect();
    assert_eq!(projected_leg_indices, vec![0, 1, 2]);
}

#[test]
fn removal_flags_agree_with_deleting() {
    let four = sample_four_waypoint_plan().normalized();
    assert!(can_remove_component(&four, 0));
    assert!(can_remove_component(&four, 3));
    assert!(!can_remove_component(&four, 4));
    for plan in [four, procedure_inserted_plan().normalized(), airway_inserted_plan().normalized()] {
        for i in 0..plan.route_components.len() + 1 {
            assert_eq!(
                can_remove_component(&plan, i),
                delete_component(plan.clone(), i).is_ok()
            );
        }
    }
}

#[test]
fn every_projected_row_has_a_uid_of_its_own() {
    for plan in [airway_inserted_plan(), procedure_inserted_plan(), sample_four_waypoint_plan().normalized()] {
        let rows = identity_rows(&plan.clone().normalized());
        for (i, a) in rows.iter().enumerate() {
            for b in &rows[i + 1..] {
                assert_ne!(a.uid, b.uid);
            }
        }
    }
}
