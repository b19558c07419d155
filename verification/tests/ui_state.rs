use app_core::component_views::project_component_ui_views;
use app_core::direct_to::{
    activate_direct_to, activate_direct_to_row, active_component_index_for_guidance, identity_rows,
    planned_row_id_for_leg_index,
};
use app_core::flight_plan::{FlightPlan, ResolvedLeg};
use app_core::guidance::{FlightPlanRowId, GuidanceState, ResolvedLegSource, SequencingMode};
use app_core::nav::{AirportId, LatLon, NavRef};
use app_core::plan_edits::{
    can_remove_component, delete_component, insert_airway_between_waypoints, insert_procedure_between_waypoints,
    insert_waypoint, move_component,
};
use app_core::route::{
    AirwaySegment, AppError, AppErrorKind, ConcretizedNavItem, ProcedureDiscontinuity, ProcedureKind,
    ProcedureSegment, RouteComponent, RouteComponentViewKind, APPROACH_ATTACHMENT_MESSAGE,
    ARRIVAL_ATTACHMENT_MESSAGE, DEPARTURE_ATTACHMENT_MESSAGE,
};
use app_core::row_actions::{
    FlightPlanControlId, FlightPlanRowActionExecution, FlightPlanRowActionId,
    FlightPlanRowActionUiView, FlightPlanRowNavigationAction, AIRWAY_ENDPOINT_REMOVE_DISABLED_REASON,
    OFF_PLAN_DIRECT_TO_EDIT_DISABLED_REASON,
};
use app_core::rows::{
    flight_plan_row_actions, FlightPlanDisplayRowKind, FlightPlanDisplayRowUiView, RouteComponentUiView,
};
use app_core::ui_state::{project_ui_state, FlightPlanUiState};

fn leg(id: &str, from: NavRef, to: NavRef, component_index: usize) -> ResolvedLeg {
    ResolvedLeg {
        id: id.to_string(),
        from,
        to,
        source: ResolvedLegSource::RouteComponent { component_index },
        procedure_provenance: None,
    }
}

fn waypoint(nav_ref: NavRef) -> RouteComponent {
    RouteComponent::Waypoint { waypoint: nav_ref }
}

fn airport(id: &str) -> NavRef {
    NavRef::Airport(id.to_string())
}

fn fix(id: &str) -> NavRef {
    NavRef::Fix(id.to_string())
}

fn navaid(id: &str) -> NavRef {
    NavRef::Navaid(id.to_string())
}

fn plan_of(
    id: &str,
    name: &str,
    route_components: Vec<RouteComponent>,
    resolved_legs: Vec<ResolvedLeg>,
    departure: Option<&str>,
    destination: Option<&str>,
) -> FlightPlan {
    FlightPlan {
        id: id.to_string(),
        name: name.to_string(),
        route_components,
        route_component_uids: Vec::new(),
        route_component_uid_counter: 0,
        resolved_legs,
        guidance: None,
        departure: departure.map(|a| AirportId(a.to_string())),
        destination: destination.map(|a| AirportId(a.to_string())),
        alternate: None,
        cruise_altitude_ft: None,
        planned_departure_time_epoch_ms: None,
        notes: None,
        updated_at_epoch_ms: 0,
        version: 1,
    }
}

fn with_components(route_components: Vec<RouteComponent>) -> FlightPlan {
    FlightPlan { route_components, ..FlightPlan::empty() }
}

fn airway_segment(name: &str, branch_key: &str, entry: NavRef, exit: NavRef) -> AirwaySegment {
    AirwaySegment { name: name.to_string(), branch_key: Some(branch_key.to_string()), entry, exit }
}

fn follow_plan(active_leg_index: usize) -> GuidanceState {
    GuidanceState {
        active_leg_index,
        active_detail_index: Some(active_leg_index),
        display_split_leg_id: None,
        sequencing_mode: SequencingMode::FollowPlan,
        direct_to: None,
        suspend_reason: None,
    }
}

fn sample_airway_component_plan() -> FlightPlan {
    plan_of(
        "plan-1",
        "Airway",
        vec![
            waypoint(airport("KBOS")),
            RouteComponent::Airway { airway: airway_segment("V16", "V16-A", fix("DODGR"), fix("PDZ")) },
            waypoint(airport("KJFK")),
        ],
        vec![leg("airway-0", fix("DODGR"), fix("LAHAB"), 1), leg("airway-1", fix("LAHAB"), fix("PDZ"), 1)],
        Some("KBOS"),
        Some("KJFK"),
    )
}

fn sample_waypoint_only_plan() -> FlightPlan {
    plan_of(
        "plan-2",
        "Waypoint only",
        vec![waypoint(airport("KRNT")), waypoint(airport("KUAO")), waypoint(airport("KHIO"))],
        vec![
            leg("component-0-1", airport("KRNT"), airport("KUAO"), 0),
            leg("component-1-2", airport("KUAO"), airport("KHIO"), 1),
        ],
        Some("KRNT"),
        Some("KHIO"),
    )
}

fn sample_guided_waypoint_plan() -> FlightPlan {
    let mut plan = plan_of(
        "plan-3",
        "Guided",
        vec![waypoint(airport("KRNT")), waypoint(navaid("SEA")), waypoint(fix("OLM")), waypoint(airport("KUAO"))],
        vec![
            leg("component-0-1", airport("KRNT"), navaid("SEA"), 0),
            leg("component-1-2", navaid("SEA"), fix("OLM"), 1),
            leg("component-2-3", fix("OLM"), airport("KUAO"), 2),
        ],
        Some("KRNT"),
        Some("KUAO"),
    );
    plan.guidance = Some(follow_plan(0));
    plan
}

fn sample_duplicate_waypoint_plan() -> FlightPlan {
    let mut plan = plan_of(
        "plan-dup",
        "Duplicate waypoint",
        vec![
            waypoint(airport("KAAA")),
            waypoint(fix("IAF")),
            waypoint(fix("PTURN")),
            waypoint(fix("IAF")),
            waypoint(airport("KBBB")),
        ],
        vec![
            leg("component-0-1", airport("KAAA"), fix("IAF"), 0),
            leg("component-1-2", fix("IAF"), fix("PTURN"), 1),
            leg("component-2-3", fix("PTURN"), fix("IAF"), 2),
            leg("component-3-4", fix("IAF"), airport("KBBB"), 3),
        ],
        Some("KAAA"),
        Some("KBBB"),
    );
    plan.guidance = Some(follow_plan(0));
    plan
}

fn sample_inserted_airway() -> (AirwaySegment, Vec<ResolvedLeg>) {
    (
        airway_segment("V2", "V2-A", navaid("SEA"), fix("VAMPS")),
        vec![
            leg("airway-V2-A-0", navaid("SEA"), fix("SUMMA"), 99),
            leg("airway-V2-A-1", fix("SUMMA"), fix("VAMPS"), 99),
        ],
    )
}

fn sample_inserted_procedure() -> (ProcedureSegment, Vec<ResolvedLeg>) {
    (
        ProcedureSegment {
            airport_id: AirportId("KRNT".to_string()),
            procedure_id: "AUTTO1".to_string(),
            display_label: None,
            kind: ProcedureKind::Sid,
            runway_transition: None,
            enroute_transition: Some("COLTS".to_string()),
            terminal_discontinuity: Some(ProcedureDiscontinuity::Vectors),
            data_quality: Vec::new(),
        },
        vec![
            leg("proc-autto1-0", fix("COLTS"), fix("BOREK"), 99),
            leg("proc-autto1-1", fix("BOREK"), fix("AXXIS"), 99),
            leg("proc-autto1-2", fix("AXXIS"), fix("GIGGY"), 99),
        ],
    )
}

fn sample_v165_plan_with_explicit_endpoints() -> FlightPlan {
    let airway = airway_segment("V165", "V165-0", navaid("OLM"), fix("RAWER"));
    let points = vec![navaid("OLM"), fix("CETRA"), fix("HOKBO"), fix("UBG"), fix("RAWER")];
    let airway_legs: Vec<ResolvedLeg> = points
        .windows(2)
        .enumerate()
        .map(|(index, pair)| leg(&format!("airway-v165-{index}"), pair[0].clone(), pair[1].clone(), 2))
        .collect();
    let mut resolved_legs = vec![leg("component-0-1", airport("KOLM"), navaid("OLM"), 0)];
    resolved_legs.extend(airway_legs);
    resolved_legs.push(leg("component-3-4", fix("RAWER"), airport("KUAO"), 3));
    plan_of(
        "plan-v165",
        "V165 explicit endpoints",
        vec![
            waypoint(airport("KOLM")),
            waypoint(navaid("OLM")),
            RouteComponent::Airway { airway },
            waypoint(fix("RAWER")),
            waypoint(airport("KUAO")),
        ],
        resolved_legs,
        None,
        None,
    )
    .normalized()
}

fn sample_two_waypoint_plan() -> FlightPlan {
    plan_of(
        "plan-2pt",
        "Two waypoint",
        vec![waypoint(airport("KRNT")), waypoint(airport("KUAO"))],
        vec![leg("component-0-1", airport("KRNT"), airport("KUAO"), 0)],
        Some("KRNT"),
        Some("KUAO"),
    )
}

fn sample_four_waypoint_plan() -> FlightPlan {
    plan_of(
        "plan-4pt",
        "Four waypoint",
        vec![
            waypoint(airport("KRNT")),
            waypoint(airport("KBFI")),
            waypoint(airport("KPAE")),
            waypoint(airport("KPDX")),
        ],
        vec![
            leg("component-0-1", airport("KRNT"), airport("KBFI"), 0),
            leg("component-1-2", airport("KBFI"), airport("KPAE"), 1),
            leg("component-2-3", airport("KPAE"), airport("KPDX"), 2),
        ],
        Some("KRNT"),
        Some("KPDX"),
    )
}

fn sample_single_component_plan() -> FlightPlan {
    plan_of("plan-1pt", "Single waypoint", vec![waypoint(airport("KRNT"))], Vec::new(), Some("KRNT"), None)
}

fn procedure_component(kind: ProcedureKind, airport_id: &str) -> RouteComponent {
    let procedure_id = match kind {
        ProcedureKind::Sid => "TEST1",
        ProcedureKind::Star => "TEST2",
        ProcedureKind::Approach => "TEST3",
    };
    RouteComponent::Procedure {
        procedure: ProcedureSegment {
            airport_id: AirportId(airport_id.to_string()),
            procedure_id: procedure_id.to_string(),
            display_label: None,
            kind,
            runway_transition: None,
            enroute_transition: None,
            terminal_discontinuity: None,
            data_quality: Vec::new(),
        },
    }
}

fn plan_with_all_attached_procedures() -> FlightPlan {
    with_components(vec![
        waypoint(airport("KSEA")),
        procedure_component(ProcedureKind::Sid, "KSEA"),
        waypoint(fix("ENRTE")),
        procedure_component(ProcedureKind::Star, "KPAE"),
        procedure_component(ProcedureKind::Approach, "KPAE"),
        waypoint(airport("KPAE")),
    ])
    .normalized()
}

/// Whether deleting each component of the plan succeeds.
fn removable(plan: &FlightPlan) -> Vec<bool> {
    let plan = plan.clone().normalized();
    (0..plan.route_components.len()).map(|i| can_remove_component(&plan, i)).collect()
}

fn project(plan: &FlightPlan) -> FlightPlanUiState {
    project_ui_state(plan.clone())
}

fn projected_components_for_test(plan: &FlightPlan) -> Vec<RouteComponentUiView> {
    let plan = plan.clone().normalized();
    let rows = identity_rows(&plan);
    let active = plan
        .guidance
        .as_ref()
        .and_then(|guidance| active_component_index_for_guidance(&plan, &rows, guidance));
    project_component_ui_views(&plan, active, &removable(&plan))
}

fn row_action_for_component(
    plan: &FlightPlan,
    component_index: usize,
    action_id: FlightPlanRowActionId,
) -> FlightPlanRowActionUiView {
    project(plan)
        .display_rows
        .iter()
        .find(|row| row.component_index == Some(component_index) && row.depth == 0)
        .and_then(|row| flight_plan_row_actions(row).into_iter().find(|action| action.id == action_id))
        .expect("flight-plan row action")
}

fn action_of(row: &FlightPlanDisplayRowUiView, id: FlightPlanRowActionId) -> FlightPlanRowActionUiView {
    flight_plan_row_actions(row).into_iter().find(|action| action.id == id).expect("row action")
}

fn activate_direct_to_test_leg(
    plan: &FlightPlan,
    from_position: LatLon,
    fixture_leg_id: &str,
) -> Result<FlightPlan, AppError> {
    let plan = plan.clone().normalized();
    let leg_index = plan
        .resolved_legs
        .iter()
        .position(|leg| leg.id == fixture_leg_id)
        .ok_or_else(|| AppError {
            kind: AppErrorKind::InvalidFlightPlan,
            message: format!("test fixture leg does not exist: {fixture_leg_id}"),
        })?;
    let row_id = planned_row_id_for_leg_index(&identity_rows(&plan), leg_index)?;
    activate_direct_to_row(plan, from_position, &row_id)
}

fn activate_direct_to_test_component(
    plan: &FlightPlan,
    from_position: LatLon,
    component_index: usize,
) -> Result<FlightPlan, AppError> {
    let plan = plan.clone().normalized();
    let row = identity_rows(&plan)
        .into_iter()
        .find(|row| {
            row.row_kind == FlightPlanDisplayRowKind::Waypoint
                && row.depth == 0
                && row.component_index == Some(component_index)
        })
        .ok_or_else(|| AppError {
            kind: AppErrorKind::InvalidFlightPlan,
            message: format!(
                "test component does not project to a top-level waypoint row: {component_index}"
            ),
        })?;
    activate_direct_to_row(plan, from_position, &FlightPlanRowId(row.uid))
}

fn position(lat_e7: i64, lon_e7: i64) -> LatLon {
    LatLon { lat_e7, lon_e7 }
}

fn matrix_ids(row: &FlightPlanDisplayRowUiView) -> Vec<Vec<FlightPlanRowActionId>> {
    row.action_matrix.iter().map(|line| line.iter().map(|action| action.id.clone()).collect()).collect()
}

#[test]
fn attached_procedures_disable_component_moves_with_the_invariant_message() {
    let plan = plan_with_all_attached_procedures();

    let origin_down = row_action_for_component(&plan, 0, FlightPlanRowActionId::MoveDown);
    assert!(!origin_down.enabled);
    assert_eq!(origin_down.disabled_reason.as_deref(), Some(DEPARTURE_ATTACHMENT_MESSAGE));

    let enroute_up = row_action_for_component(&plan, 2, FlightPlanRowActionId::MoveUp);
    assert!(!enroute_up.enabled);
    assert_eq!(enroute_up.disabled_reason.as_deref(), Some(DEPARTURE_ATTACHMENT_MESSAGE));

    let enroute_down = row_action_for_component(&plan, 2, FlightPlanRowActionId::MoveDown);
    assert!(!enroute_down.enabled);
    assert_eq!(enroute_down.disabled_reason.as_deref(), Some(ARRIVAL_ATTACHMENT_MESSAGE));
}

#[test]
fn attached_procedures_explain_insertions_but_leave_endpoint_removal_enabled() {
    let plan = plan_with_all_attached_procedures();

    for action_id in [FlightPlanRowActionId::InsertBefore, FlightPlanRowActionId::InsertAfter] {
        let action = row_action_for_component(&plan, 0, action_id);
        assert!(!action.enabled);
        assert_eq!(action.disabled_reason.as_deref(), Some(DEPARTURE_ATTACHMENT_MESSAGE));
    }

    let destination_insert_before = row_action_for_component(&plan, 5, FlightPlanRowActionId::InsertBefore);
    assert!(!destination_insert_before.enabled);
    assert_eq!(destination_insert_before.disabled_reason.as_deref(), Some(APPROACH_ATTACHMENT_MESSAGE));
    let destination_insert_after = row_action_for_component(&plan, 5, FlightPlanRowActionId::InsertAfter);
    assert!(!destination_insert_after.enabled);
    assert_eq!(destination_insert_after.disabled_reason.as_deref(), Some(APPROACH_ATTACHMENT_MESSAGE));

    assert!(row_action_for_component(&plan, 0, FlightPlanRowActionId::Remove).enabled);
    assert!(row_action_for_component(&plan, 5, FlightPlanRowActionId::Remove).enabled);
}

#[test]
fn procedure_rows_offer_invariant_aware_insert_before_and_after_actions() {
    let plan = plan_with_all_attached_procedures();

    let sid_before = row_action_for_component(&plan, 1, FlightPlanRowActionId::InsertBefore);
    let sid_after = row_action_for_component(&plan, 1, FlightPlanRowActionId::InsertAfter);
    assert!(!sid_before.enabled);
    assert_eq!(sid_before.disabled_reason.as_deref(), Some(DEPARTURE_ATTACHMENT_MESSAGE));
    assert!(sid_after.enabled);

    let star_before = row_action_for_component(&plan, 3, FlightPlanRowActionId::InsertBefore);
    let star_after = row_action_for_component(&plan, 3, FlightPlanRowActionId::InsertAfter);
    assert!(star_before.enabled);
    assert!(!star_after.enabled);
    assert_eq!(star_after.disabled_reason.as_deref(), Some(ARRIVAL_ATTACHMENT_MESSAGE));

    for action_id in [FlightPlanRowActionId::InsertBefore, FlightPlanRowActionId::InsertAfter] {
        let approach_action = row_action_for_component(&plan, 4, action_id);
        assert!(!approach_action.enabled);
        assert!(approach_action.disabled_reason.is_some());
    }
}

#[test]
fn project_ui_state_expands_atomic_airway_component_without_exposing_bridge_legs() {
    let inserted = insert_airway_between_waypoints(
        sample_waypoint_only_plan(),
        0,
        1,
        sample_inserted_airway().0,
        sample_inserted_airway().1,
    )
    .unwrap();

    let components = projected_components_for_test(&inserted);

    assert_eq!(components.len(), 4);
    assert_eq!(components[1].kind, RouteComponentViewKind::Airway);
    assert_eq!(components[1].summary, "V2");
    assert_eq!(
        components[1].items,
        vec![
            ConcretizedNavItem::Waypoint { nav_ref: navaid("SEA") },
            ConcretizedNavItem::Waypoint { nav_ref: fix("SUMMA") },
            ConcretizedNavItem::Waypoint { nav_ref: fix("VAMPS") },
        ]
    );
    assert_eq!(inserted.resolved_legs[0].from, airport("KRNT"));
    assert_eq!(inserted.resolved_legs[0].to, navaid("SEA"));
}

#[test]
fn project_ui_state_uses_procedure_display_label_for_group_summary() {
    let procedure = ProcedureSegment {
        airport_id: AirportId("KSEA".to_string()),
        procedure_id: "I34R".to_string(),
        display_label: Some("ILS or LOC 34R".to_string()),
        kind: ProcedureKind::Approach,
        runway_transition: None,
        enroute_transition: Some("JIPOX".to_string()),
        terminal_discontinuity: None,
        data_quality: Vec::new(),
    };
    let plan = with_components(vec![RouteComponent::Procedure { procedure }]).normalized();

    let ui = project(&plan);
    let components = projected_components_for_test(&plan);

    assert_eq!(components.len(), 1);
    assert_eq!(components[0].summary, "ILS or LOC 34R");
    assert_eq!(ui.display_rows[0].label, "ILS or LOC 34R");
}

#[test]
fn project_ui_state_exposes_airway_editability_and_span_occupancy_flags() {
    let inserted = insert_airway_between_waypoints(
        sample_waypoint_only_plan(),
        0,
        1,
        sample_inserted_airway().0,
        sample_inserted_airway().1,
    )
    .unwrap();

    let components = projected_components_for_test(&inserted);

    assert!(!components[0].can_add_airway_after);
    assert_eq!(components[0].following_waypoint, None);

    assert!(components[2].can_add_airway_after);

    assert!(components[1].can_remove);
    assert_eq!(components[1].preceding_waypoint, Some(airport("KRNT")));
    assert_eq!(components[1].following_waypoint, Some(airport("KUAO")));
}

#[test]
fn project_ui_state_enables_remove_and_reorder_for_plain_waypoint_routes() {
    let components = projected_components_for_test(&sample_waypoint_only_plan());

    assert!(components.iter().all(|component| component.can_remove));
    assert!(components.iter().all(|component| component.can_reorder));
    assert!(!components[0].can_reorder_up);
    assert!(components[0].can_reorder_down);
    assert!(components[1].can_reorder_up);
    assert!(components[1].can_reorder_down);
    assert!(components[2].can_reorder_up);
    assert!(!components[2].can_reorder_down);

    let grouped = projected_components_for_test(&sample_airway_component_plan());
    assert!(grouped[0].can_remove);
    assert!(grouped[0].can_reorder);
    assert!(!grouped[0].can_reorder_up);
    assert!(grouped[0].can_reorder_down);
}

#[test]
fn move_row_actions_never_dismiss_the_tray() {
    let ui = project(&sample_waypoint_only_plan());
    let action_for_component = |component_index: usize, id: FlightPlanRowActionId| {
        let row = ui
            .display_rows
            .iter()
            .find(|row| row.component_index == Some(component_index))
            .expect("row");
        action_of(row, id)
    };

    assert!(!action_for_component(0, FlightPlanRowActionId::MoveUp).enabled);
    assert!(action_for_component(0, FlightPlanRowActionId::MoveDown).enabled);
    assert!(action_for_component(1, FlightPlanRowActionId::MoveUp).enabled);
    assert!(action_for_component(1, FlightPlanRowActionId::MoveDown).enabled);
    assert!(action_for_component(2, FlightPlanRowActionId::MoveUp).enabled);
    assert!(!action_for_component(2, FlightPlanRowActionId::MoveDown).enabled);
    assert!(!action_for_component(0, FlightPlanRowActionId::MoveUp).dismiss_tray_on_success);
    assert!(!action_for_component(0, FlightPlanRowActionId::MoveDown).dismiss_tray_on_success);
    assert!(!action_for_component(1, FlightPlanRowActionId::MoveUp).dismiss_tray_on_success);
    assert!(!action_for_component(1, FlightPlanRowActionId::MoveDown).dismiss_tray_on_success);
    assert!(!action_for_component(2, FlightPlanRowActionId::MoveUp).dismiss_tray_on_success);
    assert!(!action_for_component(2, FlightPlanRowActionId::MoveDown).dismiss_tray_on_success);
}

#[test]
fn top_level_waypoint_row_uid_survives_reorder() {
    let plan = sample_waypoint_only_plan().normalized();
    let before_ui = project(&plan);
    let moved_row = before_ui
        .display_rows
        .iter()
        .find(|row| row.nav_ref == Some(airport("KHIO")))
        .expect("moved row");
    let moved_uid = moved_row.uid.clone();
    let moved_component_uid = moved_row.component_uid.clone();

    let after = move_component(plan, 2, -1).expect("move component");
    let after_ui = project(&after);
    let after_row = after_ui
        .display_rows
        .iter()
        .find(|row| row.component_uid == moved_component_uid)
        .expect("moved row after reorder");

    assert_eq!(after_row.uid, moved_uid);
    assert_eq!(after_row.component_index, Some(1));
}

#[test]
fn final_waypoint_add_airway_row_projects_open_ended_anchors() {
    let ui = project(&sample_waypoint_only_plan());
    let middle_row = ui
        .display_rows
        .iter()
        .find(|row| row.component_index == Some(1) && row.depth == 0)
        .expect("middle waypoint row");
    assert_eq!(middle_row.origin_anchor, Some(airport("KUAO")));
    assert_eq!(middle_row.destination_anchor, Some(airport("KHIO")));

    let row = ui
        .display_rows
        .iter()
        .find(|row| row.component_index == Some(2) && row.depth == 0)
        .expect("final waypoint row");

    assert!(flight_plan_row_actions(row)
        .iter()
        .any(|action| action.id == FlightPlanRowActionId::AddAirway && action.enabled));
    assert_eq!(row.origin_anchor, Some(airport("KHIO")));
    assert_eq!(row.destination_anchor, None);
}

#[test]
fn projection_hides_airway_entry_atom_when_preceded_by_same_waypoint() {
    let plan = FlightPlan {
        route_components: vec![
            waypoint(navaid("SEA")),
            RouteComponent::Airway { airway: airway_segment("V23", "V23-A", navaid("SEA"), fix("RAWER")) },
        ],
        route_component_uids: Vec::new(),
        route_component_uid_counter: 0,
        resolved_legs: vec![leg("v23-0", navaid("SEA"), fix("BTG"), 1), leg("v23-1", fix("BTG"), fix("RAWER"), 1)],
        ..sample_single_component_plan()
    };

    let components = projected_components_for_test(&plan);
    assert_eq!(
        components[1].items,
        vec![
            ConcretizedNavItem::Waypoint { nav_ref: fix("BTG") },
            ConcretizedNavItem::Waypoint { nav_ref: fix("RAWER") },
        ]
    );
    assert_eq!(plan.resolved_legs[0].from, navaid("SEA"));
    assert_eq!(plan.resolved_legs[0].to, fix("BTG"));
}

#[test]
fn projection_hides_airway_exit_atom_when_followed_by_same_waypoint() {
    let plan = FlightPlan {
        route_components: vec![
            RouteComponent::Airway { airway: airway_segment("V23", "V23-A", navaid("SEA"), fix("UBG")) },
            waypoint(fix("UBG")),
        ],
        route_component_uids: Vec::new(),
        route_component_uid_counter: 0,
        resolved_legs: vec![leg("v23-0", navaid("SEA"), fix("BTG"), 0), leg("v23-1", fix("BTG"), fix("UBG"), 0)],
        ..sample_single_component_plan()
    };

    let components = projected_components_for_test(&plan);
    assert_eq!(
        components[0].items,
        vec![
            ConcretizedNavItem::Waypoint { nav_ref: navaid("SEA") },
            ConcretizedNavItem::Waypoint { nav_ref: fix("BTG") },
        ]
    );
    let last_leg = plan.resolved_legs.last().unwrap();
    assert_eq!(last_leg.from, fix("BTG"));
    assert_eq!(last_leg.to, fix("UBG"));
}

#[test]
fn projection_hides_only_first_airway_terminal_atom_at_airway_to_airway_boundary() {
    let plan = FlightPlan {
        route_components: vec![
            RouteComponent::Airway { airway: airway_segment("V23", "V23-A", fix("PAE"), fix("UBG")) },
            RouteComponent::Airway { airway: airway_segment("V165", "V165-A", fix("UBG"), fix("BTG")) },
        ],
        route_component_uids: Vec::new(),
        route_component_uid_counter: 0,
        resolved_legs: vec![
            leg("v23-0", fix("PAE"), fix("UBG"), 0),
            leg("v165-0", fix("UBG"), fix("SUMMA"), 1),
            leg("v165-1", fix("SUMMA"), fix("BTG"), 1),
        ],
        ..sample_single_component_plan()
    };

    let components = projected_components_for_test(&plan);
    assert_eq!(components[0].items, vec![ConcretizedNavItem::Waypoint { nav_ref: fix("PAE") }]);
    assert_eq!(
        components[1].items,
        vec![
            ConcretizedNavItem::Waypoint { nav_ref: fix("UBG") },
            ConcretizedNavItem::Waypoint { nav_ref: fix("SUMMA") },
            ConcretizedNavItem::Waypoint { nav_ref: fix("BTG") },
        ]
    );
    assert_eq!(plan.resolved_legs[0].id, "v23-0");
    assert_eq!(plan.resolved_legs[1].id, "v165-0");
}

#[test]
fn project_ui_state_enables_insert_before_and_after_for_top_level_waypoints() {
    let ui = project(&sample_two_waypoint_plan());
    let action_ids: Vec<(FlightPlanRowActionId, bool)> = flight_plan_row_actions(&ui.display_rows[0])
        .iter()
        .map(|action| (action.id.clone(), action.enabled))
        .collect();

    assert!(action_ids.contains(&(FlightPlanRowActionId::InsertBefore, true)));
    assert!(action_ids.contains(&(FlightPlanRowActionId::InsertAfter, true)));
}

#[test]
fn waypoint_plates_action_carries_core_navigation_target() {
    let ui = project(&sample_two_waypoint_plan());
    let plates = action_of(&ui.display_rows[0], FlightPlanRowActionId::Plates);

    assert_eq!(
        plates.navigation,
        Some(FlightPlanRowNavigationAction::OpenAirportCharts { airport_id: "KRNT".to_string() })
    );
}

#[test]
fn project_ui_state_exposes_conceptual_action_matrix_for_waypoint_menu() {
    let ui = project(&sample_two_waypoint_plan());

    assert_eq!(
        matrix_ids(&ui.display_rows[0]),
        vec![
            vec![FlightPlanRowActionId::ActivateLeg, FlightPlanRowActionId::DirectTo],
            vec![FlightPlanRowActionId::InsertBefore, FlightPlanRowActionId::MoveUp],
            vec![FlightPlanRowActionId::InsertAfter, FlightPlanRowActionId::MoveDown],
            vec![FlightPlanRowActionId::Remove, FlightPlanRowActionId::RemoveAllAbove],
            vec![FlightPlanRowActionId::SelectDeparture, FlightPlanRowActionId::AddAirway],
            vec![FlightPlanRowActionId::SelectArrival, FlightPlanRowActionId::SelectApproach],
            vec![FlightPlanRowActionId::WaypointInfo, FlightPlanRowActionId::Plates],
            vec![FlightPlanRowActionId::Weather],
        ]
    );
}

#[test]
fn project_ui_state_exposes_remove_all_above_for_nonfirst_waypoints() {
    let ui = project(&sample_four_waypoint_plan());
    let enabled = |row: &FlightPlanDisplayRowUiView| -> Vec<(FlightPlanRowActionId, bool)> {
        flight_plan_row_actions(row).iter().map(|action| (action.id.clone(), action.enabled)).collect()
    };
    let first_actions = enabled(&ui.display_rows[0]);
    let third_actions = enabled(&ui.display_rows[2]);

    assert!(first_actions.contains(&(FlightPlanRowActionId::RemoveAllAbove, true)));
    assert!(third_actions.contains(&(FlightPlanRowActionId::RemoveAllAbove, true)));
}

#[test]
fn move_component_reorders_top_level_components_even_when_grouped() {
    let moved = move_component(sample_airway_component_plan(), 2, -1).unwrap();

    assert!(matches!(moved.route_components[0], RouteComponent::Waypoint { .. }));
    assert!(matches!(moved.route_components[1], RouteComponent::Waypoint { .. }));
    assert!(matches!(moved.route_components[2], RouteComponent::Airway { .. }));
    let components = projected_components_for_test(&moved);
    assert!(components.iter().all(|component| component.can_reorder));
}

#[test]
fn airway_group_exposes_standard_insert_move_and_remove_rows() {
    let ui = project(&sample_airway_component_plan());
    let airway = ui
        .display_rows
        .iter()
        .find(|row| {
            row.row_kind == FlightPlanDisplayRowKind::Group
                && row.component_kind == Some(RouteComponentViewKind::Airway)
        })
        .expect("airway group row");

    assert_eq!(
        matrix_ids(airway),
        vec![
            vec![FlightPlanRowActionId::InsertBefore, FlightPlanRowActionId::MoveUp],
            vec![FlightPlanRowActionId::InsertAfter, FlightPlanRowActionId::MoveDown],
            vec![FlightPlanRowActionId::Remove, FlightPlanRowActionId::RemoveAllAbove],
        ]
    );
    assert_eq!(action_of(airway, FlightPlanRowActionId::Remove).label, "Remove Airway");
}

#[test]
fn procedure_group_places_actions_in_waypoint_relative_columns() {
    let ui = project(&plan_with_all_attached_procedures());
    let departure = ui
        .display_rows
        .iter()
        .find(|row| row.row_kind == FlightPlanDisplayRowKind::Group && row.procedure_kind == Some(ProcedureKind::Sid))
        .expect("departure group row");
    let action_matrix: Vec<Vec<(FlightPlanRowActionId, u8)>> = departure
        .action_matrix
        .iter()
        .map(|line| line.iter().map(|action| (action.id.clone(), action.menu_column)).collect())
        .collect();

    assert_eq!(
        action_matrix,
        vec![
            vec![(FlightPlanRowActionId::InsertBefore, 0)],
            vec![(FlightPlanRowActionId::InsertAfter, 0)],
            vec![(FlightPlanRowActionId::RemoveProcedure, 0), (FlightPlanRowActionId::RemoveAllAbove, 1)],
            vec![(FlightPlanRowActionId::ShowPlate, 1)],
        ]
    );
    assert_eq!(action_of(departure, FlightPlanRowActionId::RemoveProcedure).label, "Remove Departure");
}

#[test]
fn project_ui_state_enables_procedure_insertion_before_airport_with_waypoint_predecessor() {
    let components = projected_components_for_test(&sample_waypoint_only_plan());

    assert!(components[0].can_add_procedure_before);
    assert!(components[1].can_add_procedure_before);
    assert!(components[2].can_add_procedure_before);
}

#[test]
fn project_ui_state_enables_procedure_insertion_for_single_airport_plan() {
    let ui = project(&sample_single_component_plan());
    let components = projected_components_for_test(&sample_single_component_plan());

    assert_eq!(components.len(), 1);
    assert!(components[0].can_add_procedure_before);
    let airport_row =
        ui.display_rows.iter().find(|row| row.component_index == Some(0)).expect("single airport row");
    let enabled_procedure_actions: Vec<ProcedureKind> = flight_plan_row_actions(airport_row)
        .iter()
        .filter(|action| action.enabled)
        .filter_map(|action| action.procedure_kind)
        .collect();
    assert_eq!(enabled_procedure_actions, vec![ProcedureKind::Sid, ProcedureKind::Star, ProcedureKind::Approach]);
}

#[test]
fn airport_rows_offer_procedure_classes_for_their_route_role() {
    let plan = with_components(vec![waypoint(airport("KSEA")), waypoint(airport("KPAE"))]);
    let ui = project(&plan);
    let procedure_actions = |component_index: usize| -> Vec<(ProcedureKind, bool)> {
        let row = ui.display_rows.iter().find(|row| row.component_index == Some(component_index)).unwrap();
        flight_plan_row_actions(row)
            .iter()
            .filter_map(|action| action.procedure_kind.map(|kind| (kind, action.enabled)))
            .collect()
    };

    assert_eq!(
        procedure_actions(0),
        vec![(ProcedureKind::Sid, true), (ProcedureKind::Star, false), (ProcedureKind::Approach, false)]
    );
    assert_eq!(
        procedure_actions(1),
        vec![(ProcedureKind::Sid, false), (ProcedureKind::Star, true), (ProcedureKind::Approach, true)]
    );
}

#[test]
fn project_ui_state_enables_procedure_replacement_before_airport_with_matching_approach_predecessor() {
    let plan = FlightPlan {
        route_components: vec![
            waypoint(airport("KRNT")),
            RouteComponent::Procedure {
                procedure: ProcedureSegment {
                    airport_id: AirportId("KUAO".to_string()),
                    procedure_id: "I35".to_string(),
                    display_label: None,
                    kind: ProcedureKind::Approach,
                    runway_transition: Some("RW35".to_string()),
                    enroute_transition: Some("FOO".to_string()),
                    terminal_discontinuity: None,
                    data_quality: Vec::new(),
                },
            },
            waypoint(airport("KUAO")),
        ],
        route_component_uids: Vec::new(),
        route_component_uid_counter: 0,
        resolved_legs: vec![
            leg("component-0-1", airport("KRNT"), fix("FOO"), 0),
            leg("proc-0", fix("FOO"), airport("KUAO"), 1),
        ],
        ..sample_waypoint_only_plan()
    };

    let ui = project(&plan);
    let components = projected_components_for_test(&plan);

    assert!(components[2].can_add_procedure_before);
    assert_eq!(components[2].replace_procedure_component_index, Some(1));
    let airport_row = ui
        .display_rows
        .iter()
        .find(|row| row.component_index == Some(2) && row.row_kind == FlightPlanDisplayRowKind::Waypoint)
        .expect("airport row");
    assert!(flight_plan_row_actions(airport_row)
        .iter()
        .any(|action| action.id == FlightPlanRowActionId::SelectApproach && action.enabled));
}

#[test]
fn single_top_level_component_disables_reorder() {
    let components = projected_components_for_test(&sample_single_component_plan());
    assert_eq!(components.len(), 1);
    assert!(!components[0].can_reorder);
    assert!(!components[0].can_reorder_up);
    assert!(!components[0].can_reorder_down);
}

#[test]
fn project_ui_state_marks_active_procedure_component_and_discontinuity() {
    let inserted = insert_procedure_between_waypoints(
        sample_waypoint_only_plan(),
        0,
        1,
        sample_inserted_procedure().0,
        sample_inserted_procedure().1,
    )
    .unwrap();
    let guided = FlightPlan { guidance: Some(follow_plan(2)), ..inserted };

    let ui = project(&guided);
    let components = projected_components_for_test(&guided);

    assert!(components[1].active);
    assert_eq!(components[1].kind, RouteComponentViewKind::Procedure);
    assert!(matches!(
        components[1].items.last(),
        Some(ConcretizedNavItem::Discontinuity { discontinuity: ProcedureDiscontinuity::Vectors, .. })
    ));
    assert_eq!(ui.guidance.as_ref().unwrap().active_component_index, Some(1));
    assert_eq!(ui.guidance.as_ref().unwrap().active_leg_index, Some(2));
}

#[test]
fn project_ui_state_exposes_nav_element_summary_without_session_geometry() {
    let guided = FlightPlan { guidance: Some(follow_plan(0)), ..sample_waypoint_only_plan() };

    let ui = project(&guided);
    let nav_element = &ui.guidance.as_ref().unwrap().nav_element;

    assert_eq!(nav_element.active_leg_summary, "KRNT \u{2192} KUAO");
    assert_eq!(nav_element.cdi_offscale_readout, None);
}

#[test]
fn project_ui_state_exposes_direct_to_without_ui_recomputing_on_plan_status() {
    let activated = activate_direct_to_test_leg(
        &sample_duplicate_waypoint_plan(),
        position(420_000_000, -710_000_000),
        "component-2-3",
    )
    .unwrap();

    let ui = project(&activated);

    let guidance = ui.guidance.as_ref().unwrap();
    assert_eq!(guidance.sequencing_mode, SequencingMode::DirectTo);
    assert_eq!(guidance.active_component_index, Some(3));
    let direct_to = guidance.direct_to.as_ref().unwrap();
    assert!(direct_to.on_plan_target);
    assert_eq!(direct_to.target, fix("IAF"));
    assert_eq!(guidance.active_to_row_uid.as_deref(), Some(direct_to.target_row_id.as_str()));
}

#[test]
fn off_plan_direct_to_projects_disabled_plan_and_synthetic_target_row() {
    let activated =
        activate_direct_to(sample_guided_waypoint_plan(), position(475_000_000, -1_220_000_000), airport("KPSC"))
            .unwrap();
    let ui = project(&activated);
    let rows = &ui.display_rows;
    let plan_rows = &rows[..rows.len() - 1];

    assert!(plan_rows.iter().all(|row| !row.enabled));
    assert!(plan_rows
        .iter()
        .all(|row| row.disabled_reason.as_deref() == Some(OFF_PLAN_DIRECT_TO_EDIT_DISABLED_REASON)));
    assert!(plan_rows.iter().flat_map(flight_plan_row_actions).all(|action| !action.enabled));
    assert!(plan_rows
        .iter()
        .flat_map(flight_plan_row_actions)
        .all(|action| action.disabled_reason.as_deref() == Some(OFF_PLAN_DIRECT_TO_EDIT_DISABLED_REASON)));
    let direct_row = rows.last().expect("synthetic direct-to row");
    assert_eq!(direct_row.label, "KPSC");
    assert_eq!(direct_row.nav_ref, Some(airport("KPSC")));
    assert!(direct_row.active);
    assert!(direct_row.enabled);
    assert!(direct_row.synthetic_direct_to);
    assert_eq!(
        ui.guidance.as_ref().and_then(|guidance| guidance.direct_to.as_ref()).map(|d| d.on_plan_target),
        Some(false)
    );
    let restore_control = ui
        .controls
        .iter()
        .find(|control| matches!(&control.id, FlightPlanControlId::RestoreDirectTo))
        .expect("restore direct-to control");
    assert_eq!(restore_control.label, "Restore\nFP");
    assert!(restore_control.enabled);
    assert_eq!(restore_control.disabled_reason, None);
    assert!(ui.controls.last().is_some_and(|control| matches!(&control.id, FlightPlanControlId::RestoreDirectTo)));
}

#[test]
fn project_ui_state_projects_compact_flight_plan_control_labels() {
    let ui = project(&sample_guided_waypoint_plan());

    assert_eq!(
        ui.controls.iter().map(|control| control.label.as_str()).collect::<Vec<_>>(),
        vec!["Next\nLeg", "SQNC", "STOP\nNAV", "SUSP", "Unsusp", "Restore\nFP"]
    );
}

fn assert_on_plan_projection(target: NavRef) {
    let activated =
        activate_direct_to(sample_guided_waypoint_plan(), position(475_000_000, -1_220_000_000), target).unwrap();
    let ui = project(&activated);
    let rows = &ui.display_rows;

    assert!(rows.iter().all(|row| row.enabled));
    assert!(rows.iter().all(|row| !row.synthetic_direct_to));
    assert_eq!(
        ui.guidance.as_ref().and_then(|guidance| guidance.direct_to.as_ref()).map(|d| d.on_plan_target),
        Some(true)
    );
    let restore_control = ui
        .controls
        .iter()
        .find(|control| matches!(&control.id, FlightPlanControlId::RestoreDirectTo))
        .expect("restore direct-to control");
    assert_eq!(restore_control.label, "Restore\nFP");
    assert!(!restore_control.enabled);
    assert_eq!(restore_control.disabled_reason.as_deref(), Some("No off-plan Direct-To is active."));
    assert!(ui.controls.last().is_some_and(|control| matches!(&control.id, FlightPlanControlId::RestoreDirectTo)));
}

#[test]
fn on_plan_direct_to_keeps_flight_plan_projection_enabled() {
    assert_on_plan_projection(fix("OLM"));
}

#[test]
fn direct_to_first_waypoint_is_on_plan_without_overlay() {
    assert_on_plan_projection(airport("KRNT"));
}

#[test]
fn appending_duplicate_waypoint_preserves_active_row_and_activate_leg_actions() {
    let appended = insert_waypoint(sample_duplicate_waypoint_plan(), 4, false, airport("KAAA")).unwrap();
    let ui = project(&appended);
    let rows = &ui.display_rows;
    let guidance = ui.guidance.as_ref().expect("guidance");
    let active_to_uid = guidance.active_to_row_uid.as_ref().expect("active to row uid");
    let active_to_row = rows.iter().find(|row| row.uid == *active_to_uid).expect("active to row");

    assert_eq!(guidance.active_leg_index, Some(0));
    assert_eq!(active_to_row.nav_ref, Some(fix("IAF")));
    for row in rows.iter().filter(|row| {
        row.row_kind == FlightPlanDisplayRowKind::Waypoint
            && row.component_index.is_some()
            && row.leg_index.is_some()
            && row.leg_index != guidance.active_leg_index
    }) {
        let activate_leg = action_of(row, FlightPlanRowActionId::ActivateLeg);
        assert!(activate_leg.enabled, "activate leg should stay enabled for {}", row.uid);
    }
}

#[test]
fn duplicate_waypoint_rows_project_occurrence_specific_leg_indices() {
    let ui = project(&sample_duplicate_waypoint_plan());
    let rows: Vec<&FlightPlanDisplayRowUiView> = ui
        .display_rows
        .iter()
        .filter(|row| row.row_kind == FlightPlanDisplayRowKind::Waypoint && row.depth == 0)
        .collect();

    assert_eq!(rows[0].label, "KAAA");
    assert_eq!(rows[0].leg_index, None);
    assert_eq!(rows[1].label, "IAF");
    assert_eq!(rows[1].leg_index, Some(0));
    assert_eq!(rows[2].label, "PTURN");
    assert_eq!(rows[2].leg_index, Some(1));
    assert_eq!(rows[3].label, "IAF");
    assert_eq!(rows[3].leg_index, Some(2));
    assert_ne!(rows[1].uid, rows[3].uid);
}

#[test]
fn adjacent_duplicate_waypoint_rows_keep_nav_refs() {
    let inserted = insert_waypoint(sample_waypoint_only_plan(), 2, true, airport("KHIO")).unwrap();
    let ui = project(&inserted);
    let rows: Vec<&FlightPlanDisplayRowUiView> = ui
        .display_rows
        .iter()
        .filter(|row| row.row_kind == FlightPlanDisplayRowKind::Waypoint && row.depth == 0)
        .collect();
    let hio_rows: Vec<&&FlightPlanDisplayRowUiView> = rows.iter().filter(|row| row.label == "KHIO").collect();

    assert_eq!(hio_rows.len(), 2);
    assert!(hio_rows.iter().all(|row| row.nav_ref == Some(airport("KHIO"))));
}

#[test]
fn adjacent_duplicate_waypoint_only_resolved_target_is_activatable() {
    let inserted = insert_waypoint(sample_waypoint_only_plan(), 2, true, airport("KHIO")).unwrap();
    let ui = project(&inserted);
    let hio_rows: Vec<&FlightPlanDisplayRowUiView> = ui
        .display_rows
        .iter()
        .filter(|row| row.row_kind == FlightPlanDisplayRowKind::Waypoint && row.label == "KHIO")
        .collect();

    assert_eq!(hio_rows.len(), 2);
    assert_eq!(hio_rows[0].leg_index, None);
    assert_eq!(hio_rows[1].leg_index, Some(1));
    assert!(!action_of(hio_rows[0], FlightPlanRowActionId::ActivateLeg).enabled);
    assert!(action_of(hio_rows[1], FlightPlanRowActionId::ActivateLeg).enabled);
}

#[test]
fn waypoint_rows_expose_core_session_direct_to_action() {
    let inserted = insert_airway_between_waypoints(
        sample_waypoint_only_plan(),
        0,
        1,
        sample_inserted_airway().0,
        sample_inserted_airway().1,
    )
    .unwrap();
    let ui = project(&inserted);
    let child_row = ui
        .display_rows
        .iter()
        .find(|row| row.depth == 1 && row.row_kind == FlightPlanDisplayRowKind::Waypoint)
        .expect("nested airway waypoint row");
    let direct_to = action_of(child_row, FlightPlanRowActionId::DirectTo);

    assert!(!child_row.uid.is_empty());
    assert!(!direct_to.uid.is_empty());
    assert!(direct_to.enabled);
    assert_eq!(direct_to.execution, FlightPlanRowActionExecution::CoreSession);
}

#[test]
fn airway_child_rows_expose_remove_for_visible_endpoints_without_remove_all_above() {
    let ui = project(&sample_v165_plan_with_explicit_endpoints());
    let airway_rows: Vec<&FlightPlanDisplayRowUiView> = ui
        .display_rows
        .iter()
        .filter(|row| {
            row.component_kind == Some(RouteComponentViewKind::Airway)
                && row.row_kind == FlightPlanDisplayRowKind::Waypoint
        })
        .collect();
    let row_actions = |label: &str| -> Vec<(FlightPlanRowActionId, bool, FlightPlanRowActionExecution)> {
        let row = airway_rows
            .iter()
            .find(|row| row.label == label)
            .unwrap_or_else(|| panic!("airway row {label}"));
        flight_plan_row_actions(row)
            .iter()
            .map(|action| (action.id.clone(), action.enabled, action.execution.clone()))
            .collect()
    };

    assert_eq!(
        airway_rows.iter().map(|row| row.label.as_str()).collect::<Vec<_>>(),
        vec!["CETRA", "HOKBO", "UBG"]
    );
    assert!(row_actions("CETRA").contains(&(
        FlightPlanRowActionId::Remove,
        true,
        FlightPlanRowActionExecution::CoreSession
    )));
    assert!(row_actions("HOKBO").contains(&(
        FlightPlanRowActionId::Remove,
        false,
        FlightPlanRowActionExecution::CoreSession
    )));
    let hokbo = airway_rows.iter().find(|row| row.label == "HOKBO").expect("HOKBO row");
    let hokbo_remove = action_of(hokbo, FlightPlanRowActionId::Remove);
    assert_eq!(hokbo_remove.disabled_reason.as_deref(), Some(AIRWAY_ENDPOINT_REMOVE_DISABLED_REASON));
    assert!(row_actions("UBG").contains(&(
        FlightPlanRowActionId::Remove,
        true,
        FlightPlanRowActionExecution::CoreSession
    )));
    for row in airway_rows {
        assert!(
            flight_plan_row_actions(row).iter().all(|action| action.id != FlightPlanRowActionId::RemoveAllAbove),
            "structured airway child {} must not expose Remove All Above",
            row.label
        );
    }
}
