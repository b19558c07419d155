use app_core::component_views::project_identity_rows;
use app_core::direct_to::{
    activate_direct_to, activate_direct_to_row, active_component_index_for_guidance,
    allocate_temporary_direct_to_row_id, direct_to_resume_leg_index, direct_to_target_leg_index,
    planned_direct_to_targets_for_nav_ref, planned_row_id_for_leg_index,
};
use app_core::flight_plan::{FlightPlan, ResolvedLeg};
use app_core::guidance::{
    DirectToState, FlightPlanRowId, GuidanceState, ResolvedLegSource, SequencingMode,
};
use app_core::nav::{AirportId, LatLon, NavRef};
use app_core::route::{AppError, AppErrorKind, RouteComponent};
use app_core::row_guidance::active_guidance_row_uids;
use app_core::rows::{FlightPlanDisplayRowKind, FlightPlanDisplayRowUiView};
use app_core::sequencing::{activate_leg, active_guidance_leg, sequence_active_leg, suspend_sequencing};

fn waypoint(nav_ref: NavRef) -> RouteComponent {
    RouteComponent::Waypoint { waypoint: nav_ref }
}

fn direct_leg(id: &str, from: NavRef, to: NavRef, component_index: usize) -> ResolvedLeg {
    ResolvedLeg {
        id: id.to_string(),
        from,
        to,
        source: ResolvedLegSource::RouteComponent { component_index },
        procedure_provenance: None,
    }
}

fn follow_plan(active_leg_index: usize) -> GuidanceState {
    GuidanceState {
        active_leg_index,
        active_detail_index: Some(active_leg_index),
        display_split_leg_id: None,
        sequencing_mode: SequencingMode::FollowPlan,
        direct_to: None,
        suspend_reason: None,
    }
}

fn plan_of(
    id: &str,
    route_components: Vec<RouteComponent>,
    resolved_legs: Vec<ResolvedLeg>,
    guidance: Option<GuidanceState>,
) -> FlightPlan {
    FlightPlan {
        id: id.to_string(),
        name: "Sample".to_string(),
        route_components,
        route_component_uids: Vec::new(),
        route_component_uid_counter: 0,
        resolved_legs,
        guidance,
        departure: None,
        destination: None,
        alternate: None,
        cruise_altitude_ft: None,
        planned_departure_time_epoch_ms: None,
        notes: None,
        updated_at_epoch_ms: 0,
        version: 1,
    }
}

fn sample_guided_waypoint_plan() -> FlightPlan {
    let mut plan = plan_of(
        "plan-3",
        vec![
            waypoint(NavRef::Airport("KRNT".to_string())),
            waypoint(NavRef::Navaid("SEA".to_string())),
            waypoint(NavRef::Fix("OLM".to_string())),
            waypoint(NavRef::Airport("KUAO".to_string())),
        ],
        vec![
            direct_leg(
                "component-0-1",
                NavRef::Airport("KRNT".to_string()),
                NavRef::Navaid("SEA".to_string()),
                0,
            ),
            direct_leg(
                "component-1-2",
                NavRef::Navaid("SEA".to_string()),
                NavRef::Fix("OLM".to_string()),
                1,
            ),
            direct_leg(
                "component-2-3",
                NavRef::Fix("OLM".to_string()),
                NavRef::Airport("KUAO".to_string()),
                2,
            ),
        ],
        Some(GuidanceState { active_detail_index: Some(0), ..follow_plan(0) }),
    );
    plan.departure = Some(AirportId("KRNT".to_string()));
    plan.destination = Some(AirportId("KUAO".to_string()));
    plan
}

fn sample_duplicate_waypoint_plan() -> FlightPlan {
    let iaf = || NavRef::Fix("IAF".to_string());
    let mut plan = plan_of(
        "plan-dup",
        vec![
            waypoint(NavRef::Airport("KAAA".to_string())),
            waypoint(iaf()),
            waypoint(NavRef::Fix("PTURN".to_string())),
            waypoint(iaf()),
            waypoint(NavRef::Airport("KBBB".to_string())),
        ],
        vec![
            direct_leg("component-0-1", NavRef::Airport("KAAA".to_string()), iaf(), 0),
            direct_leg("component-1-2", iaf(), NavRef::Fix("PTURN".to_string()), 1),
            direct_leg("component-2-3", NavRef::Fix("PTURN".to_string()), iaf(), 2),
            direct_leg("component-3-4", iaf(), NavRef::Airport("KBBB".to_string()), 3),
        ],
        Some(GuidanceState { active_detail_index: Some(0), ..follow_plan(0) }),
    );
    plan.name = "Duplicate waypoint".to_string();
    plan.departure = Some(AirportId("KAAA".to_string()));
    plan.destination = Some(AirportId("KBBB".to_string()));
    plan
}

fn position(lat_e7: i64, lon_e7: i64) -> LatLon {
    LatLon { lat_e7, lon_e7 }
}

fn identity_rows(plan: &FlightPlan) -> Vec<FlightPlanDisplayRowUiView> {
    let plan = plan.clone().normalized();
    let removable = vec![false; plan.route_components.len()];
    project_identity_rows(&plan, &removable)
}

fn target_leg(plan: &FlightPlan, direct_to: &DirectToState) -> Option<usize> {
    direct_to_target_leg_index(&identity_rows(plan), direct_to)
}

fn resume_leg(plan: &FlightPlan, direct_to: &DirectToState) -> Option<usize> {
    direct_to_resume_leg_index(&identity_rows(plan), direct_to)
}

fn sequence(plan: &FlightPlan) -> Result<FlightPlan, AppError> {
    sequence_active_leg(plan.clone())
}

fn activate_direct_to_test_leg(
    plan: &FlightPlan,
    from_position: LatLon,
    fixture_leg_id: &str,
) -> Result<FlightPlan, AppError> {
    let plan = plan.clone().normalized();
    let leg_index = plan
        .resolved_legs
        .iter()
        .position(|leg| leg.id == fixture_leg_id)
        .ok_or_else(|| AppError {
            kind: AppErrorKind::InvalidFlightPlan,
            message: format!("test fixture leg does not exist: {fixture_leg_id}"),
        })?;
    let row_id = planned_row_id_for_leg_index(&identity_rows(&plan), leg_index)?;
    activate_direct_to_row(plan, from_position, &row_id)
}

fn activate_direct_to_test_component(
    plan: &FlightPlan,
    from_position: LatLon,
    component_index: usize,
) -> Result<FlightPlan, AppError> {
    let plan = plan.clone().normalized();
    let row = identity_rows(&plan)
        .into_iter()
        .find(|row| {
            row.row_kind == FlightPlanDisplayRowKind::Waypoint
                && row.depth == 0
                && row.component_index == Some(component_index)
        })
        .ok_or_else(|| AppError {
            kind: AppErrorKind::InvalidFlightPlan,
            message: format!(
                "test component does not project to a top-level waypoint row: {component_index}"
            ),
        })?;
    activate_direct_to_row(plan, from_position, &FlightPlanRowId(row.uid))
}

#[test]
fn activate_direct_to_stashes_hidden_start_and_resume_leg() {
    let plan = sample_guided_waypoint_plan();

    let activated = activate_direct_to(
        plan,
        position(474_900_000, -1_222_160_000),
        NavRef::Fix("OLM".to_string()),
    )
    .unwrap();

    let guidance = activated.guidance.as_ref().unwrap();
    assert_eq!(guidance.sequencing_mode, SequencingMode::DirectTo);
    assert_eq!(guidance.active_leg_index, 1);
    let direct_to = guidance.direct_to.as_ref().unwrap();
    assert_eq!(direct_to.start, NavRef::LatLon(position(474_900_000, -1_222_160_000)));
    assert_eq!(direct_to.target, NavRef::Fix("OLM".to_string()));
    assert!(direct_to.target_row.is_planned());
    assert_eq!(target_leg(&activated, direct_to), Some(1));
    assert_eq!(resume_leg(&activated, direct_to), Some(2));

    let active_leg = active_guidance_leg(activated.clone()).unwrap();
    assert_eq!(active_leg.from, NavRef::LatLon(position(474_900_000, -1_222_160_000)));
    assert_eq!(active_leg.to, NavRef::Fix("OLM".to_string()));
}

#[test]
fn sequence_direct_to_resumes_underlying_plan_at_next_leg() {
    let activated = activate_direct_to(
        sample_guided_waypoint_plan(),
        position(474_900_000, -1_222_160_000),
        NavRef::Fix("OLM".to_string()),
    )
    .unwrap();

    let sequenced = sequence(&activated).unwrap();

    let guidance = sequenced.guidance.as_ref().unwrap();
    assert_eq!(guidance.sequencing_mode, SequencingMode::FollowPlan);
    assert_eq!(guidance.active_leg_index, 2);
    assert!(guidance.direct_to.is_none());

    let active_leg = active_guidance_leg(sequenced.clone()).unwrap();
    assert_eq!(active_leg.from, NavRef::Fix("OLM".to_string()));
    assert_eq!(active_leg.to, NavRef::Airport("KUAO".to_string()));
}

#[test]
fn direct_to_canonical_navaid_resumes_underlying_plan() {
    let plan = plan_of(
        "plan-empty",
        vec![
            waypoint(NavRef::Fix("SPUUD".to_string())),
            waypoint(NavRef::Navaid("PDT".to_string())),
            waypoint(NavRef::Fix("CORDO".to_string())),
        ],
        vec![
            direct_leg(
                "v4-spuud-pdt",
                NavRef::Fix("SPUUD".to_string()),
                NavRef::Navaid("PDT".to_string()),
                0,
            ),
            direct_leg(
                "v4-pdt-cordo",
                NavRef::Navaid("PDT".to_string()),
                NavRef::Fix("CORDO".to_string()),
                1,
            ),
        ],
        Some(GuidanceState { active_detail_index: Some(0), ..follow_plan(0) }),
    );

    let activated = activate_direct_to(
        plan,
        position(400_000_000, -1_201_800_000),
        NavRef::Navaid("PDT".to_string()),
    )
    .expect("direct-to PDT navaid");

    let direct_to = activated
        .guidance
        .as_ref()
        .and_then(|guidance| guidance.direct_to.as_ref())
        .expect("direct-to state");
    assert!(direct_to.target_row.is_planned());
    assert_eq!(target_leg(&activated, direct_to), Some(0));
    assert_eq!(resume_leg(&activated, direct_to), Some(1));

    let sequenced = sequence(&activated).expect("sequence direct-to");
    let guidance = sequenced.guidance.as_ref().expect("sequenced guidance");
    assert_eq!(guidance.sequencing_mode, SequencingMode::FollowPlan);
    assert_eq!(guidance.active_leg_index, 1);
    assert!(guidance.direct_to.is_none());
}

#[test]
fn activate_leg_clears_direct_to_and_retargets_underlying_plan() {
    let activated = activate_direct_to(
        sample_guided_waypoint_plan(),
        position(474_900_000, -1_222_160_000),
        NavRef::Fix("OLM".to_string()),
    )
    .unwrap();

    let resumed = activate_leg(activated, 2).unwrap();

    let guidance = resumed.guidance.as_ref().unwrap();
    assert_eq!(guidance.sequencing_mode, SequencingMode::FollowPlan);
    assert_eq!(guidance.active_leg_index, 2);
    assert!(guidance.direct_to.is_none());
}

#[test]
fn off_plan_direct_to_suspends_after_hidden_leg_completes() {
    let activated = activate_direct_to(
        sample_guided_waypoint_plan(),
        position(474_900_000, -1_222_160_000),
        NavRef::Fix("BTG".to_string()),
    )
    .unwrap();

    let guidance = activated.guidance.as_ref().unwrap();
    assert_eq!(guidance.sequencing_mode, SequencingMode::DirectTo);
    assert!(!guidance.direct_to.as_ref().unwrap().target_row.is_planned());
    assert_eq!(guidance.direct_to.as_ref().unwrap().resume_row_id, None);

    let sequenced = sequence(&activated).unwrap();
    let guidance = sequenced.guidance.as_ref().unwrap();
    assert_eq!(guidance.sequencing_mode, SequencingMode::Suspended);
    assert!(guidance.direct_to.is_none());
    assert!(active_guidance_leg(sequenced.clone()).is_none());
}

#[test]
fn suspend_sequencing_forces_suspended_mode_and_clears_direct_to() {
    let activated = activate_direct_to(
        sample_guided_waypoint_plan(),
        position(474_900_000, -1_222_160_000),
        NavRef::Fix("OLM".to_string()),
    )
    .unwrap();

    let suspended = suspend_sequencing(activated).unwrap();

    let guidance = suspended.guidance.as_ref().unwrap();
    assert_eq!(guidance.active_leg_index, 1);
    assert_eq!(guidance.sequencing_mode, SequencingMode::Suspended);
    assert!(guidance.direct_to.is_none());
    let active_leg = active_guidance_leg(suspended.clone()).unwrap();
    assert_eq!(active_leg.from, NavRef::Navaid("SEA".to_string()));
    assert_eq!(active_leg.to, NavRef::Fix("OLM".to_string()));
}

#[test]
fn activate_direct_to_row_can_target_specific_duplicate_waypoint_occurrence() {
    let activated = activate_direct_to_test_leg(
        &sample_duplicate_waypoint_plan(),
        position(420_000_000, -710_000_000),
        "component-2-3",
    )
    .unwrap();

    let guidance = activated.guidance.as_ref().unwrap();
    let direct_to = guidance.direct_to.as_ref().unwrap();
    assert_eq!(guidance.active_leg_index, 2);
    assert_eq!(direct_to.target, NavRef::Fix("IAF".to_string()));
    assert!(direct_to.target_row.is_planned());
    assert_eq!(target_leg(&activated, direct_to), Some(2));
    assert_eq!(resume_leg(&activated, direct_to), Some(3));
}

#[test]
fn direct_to_duplicate_first_component_does_not_target_later_duplicate() {
    let activated = activate_direct_to_test_component(
        &sample_duplicate_waypoint_plan(),
        position(475_000_000, -1_220_000_000),
        1,
    )
    .unwrap();
    let direct_to = activated
        .guidance
        .as_ref()
        .and_then(|guidance| guidance.direct_to.as_ref())
        .expect("direct-to state");

    assert_eq!(direct_to.target, NavRef::Fix("IAF".to_string()));
    assert!(direct_to.target_row.is_planned());
    assert_eq!(target_leg(&activated, direct_to), Some(0));
    assert_eq!(resume_leg(&activated, direct_to), Some(1));

    let activated = activate_direct_to_test_component(
        &sample_duplicate_waypoint_plan(),
        position(475_000_000, -1_220_000_000),
        3,
    )
    .unwrap();
    let direct_to = activated
        .guidance
        .as_ref()
        .and_then(|guidance| guidance.direct_to.as_ref())
        .expect("direct-to state");

    assert_eq!(direct_to.target, NavRef::Fix("IAF".to_string()));
    assert!(direct_to.target_row.is_planned());
    assert_eq!(target_leg(&activated, direct_to), Some(2));
    assert_eq!(resume_leg(&activated, direct_to), Some(3));
}

#[test]
fn direct_to_duplicate_component_projects_clicked_row_uid() {
    let activated = activate_direct_to_test_component(
        &sample_duplicate_waypoint_plan(),
        position(475_000_000, -1_220_000_000),
        3,
    )
    .unwrap();
    let display_rows = identity_rows(&activated);
    let rows = display_rows
        .iter()
        .filter(|row| row.row_kind == FlightPlanDisplayRowKind::Waypoint && row.depth == 0)
        .collect::<Vec<_>>();
    let first_duplicate_uid = rows
        .iter()
        .find(|row| {
            row.nav_ref == Some(NavRef::Fix("IAF".to_string())) && row.component_index == Some(1)
        })
        .expect("first IAF row")
        .uid
        .clone();
    let clicked_duplicate_uid = rows
        .iter()
        .find(|row| {
            row.nav_ref == Some(NavRef::Fix("IAF".to_string())) && row.component_index == Some(3)
        })
        .expect("clicked IAF row")
        .uid
        .clone();

    assert_ne!(first_duplicate_uid, clicked_duplicate_uid);
    let (from_uid, to_uid) = active_guidance_row_uids(activated.clone(), &display_rows);
    assert_eq!(from_uid, None);
    assert_eq!(to_uid, Some(clicked_duplicate_uid));
}

#[test]
fn direct_to_duplicate_route_origin_component_does_not_target_later_duplicate() {
    let mut plan = sample_duplicate_waypoint_plan();
    plan.route_components[4] = waypoint(NavRef::Airport("KAAA".to_string()));
    plan.resolved_legs[3].to = NavRef::Airport("KAAA".to_string());

    let activated =
        activate_direct_to_test_component(&plan, position(475_000_000, -1_220_000_000), 0)
            .unwrap();
    let direct_to = activated
        .guidance
        .as_ref()
        .and_then(|guidance| guidance.direct_to.as_ref())
        .expect("direct-to state");

    assert_eq!(direct_to.target, NavRef::Airport("KAAA".to_string()));
    assert!(direct_to.target_row.is_planned());
    assert_eq!(target_leg(&activated, direct_to), None);
    assert_eq!(resume_leg(&activated, direct_to), Some(0));
}

#[test]
fn a_waypoint_listed_twice_is_reached_through_a_temporary_row() {
    let plan = sample_duplicate_waypoint_plan();
    let normalized = plan.clone().normalized();
    let rows = identity_rows(&normalized);
    let targets =
        planned_direct_to_targets_for_nav_ref(&normalized, &rows, &NavRef::Fix("IAF".to_string()))
            .unwrap();
    assert_eq!(targets.len(), 2);
    assert_eq!(targets[0].target_leg_index, Some(0));
    assert_eq!(targets[1].target_leg_index, Some(2));

    let activated = activate_direct_to(
        plan,
        position(475_000_000, -1_220_000_000),
        NavRef::Fix("IAF".to_string()),
    )
    .unwrap();
    let guidance = activated.guidance.as_ref().unwrap();
    let direct_to = guidance.direct_to.as_ref().unwrap();
    assert!(!direct_to.target_row.is_planned());
    assert_eq!(
        direct_to.target_row.row_id().as_str(),
        allocate_temporary_direct_to_row_id(&normalized).as_str()
    );
    assert_eq!(direct_to.target_row.row_id().as_str(), "flight-plan-row:0000000000000005");
    assert_eq!(guidance.active_leg_index, 0);
    assert_eq!(guidance.active_detail_index, None);
}

#[test]
fn rows_and_components_follow_the_active_leg() {
    let plan = sample_guided_waypoint_plan().normalized();
    let rows = identity_rows(&plan);
    assert_eq!(planned_row_id_for_leg_index(&rows, 1).unwrap().as_str(), rows[2].uid);
    let missing = planned_row_id_for_leg_index(&rows, 7).unwrap_err();
    assert_eq!(missing.message, "resolved leg 7 has no projected waypoint row");
    let guidance = plan.guidance.clone().unwrap();
    assert_eq!(active_component_index_for_guidance(&plan, &rows, &guidance), Some(0));
    let (from_uid, to_uid) = active_guidance_row_uids(plan.clone(), &rows);
    assert_eq!(from_uid.as_deref(), Some(rows[0].uid.as_str()));
    assert_eq!(to_uid.as_deref(), Some(rows[1].uid.as_str()));
}
