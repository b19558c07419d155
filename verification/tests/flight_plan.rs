use app_core::flight_plan::{
    first_guidance_detail_index_for_leg, flight_plan_contains_nav_ref,
    flight_plan_has_direct_to_overlay, guidance_detail_ref_by_index, guidance_detail_refs,
    resolved_legs_from_waypoint_components, top_level_waypoint_component_count,
    top_level_waypoint_component_index, FlightPlan, LegDisplayPath, ProcedureLegProvenance,
    ResolvedLeg,
};
use app_core::guidance::{
    DirectToState, DirectToTargetRow, FlightPlanRowId, GuidanceState, LegDisplayPathStyle,
    ProcedureSegmentRole, ResolvedLegSource, SequencingMode, SuspendReason,
};
use app_core::nav::{AirportId, LatLon, NavRef};
use app_core::route::{
    AppErrorKind, PathTermination, ProcedureDiscontinuity, ProcedureKind, ProcedureSegment,
    RouteComponent,
};
use app_core::row_actions::FlightPlanControlId;
use app_core::sequencing::{
    activate_leg, activate_leg_at_detail_index, activate_next_leg, active_guidance_leg,
    project_flight_plan_controls, restore_direct_to, sequence_active_detail,
    sequence_active_leg, sequence_active_leg_with_direct_to_legs, should_suspend_after_active_leg, stop_navigation, suspend_sequencing,
    terminal_hold_start_detail_index_for_leg, terminal_hold_start_element_index_for_leg,
    unsuspend_sequencing,
};

fn waypoint(nav_ref: NavRef) -> RouteComponent {
    RouteComponent::Waypoint { waypoint: nav_ref }
}

fn direct_leg(id: &str, from: NavRef, to: NavRef, component_index: usize) -> ResolvedLeg {
    ResolvedLeg {
        id: id.to_string(),
        from,
        to,
        source: ResolvedLegSource::RouteComponent { component_index },
        procedure_provenance: None,
    }
}

fn plan_with(
    id: &str,
    route_components: Vec<RouteComponent>,
    resolved_legs: Vec<ResolvedLeg>,
    guidance: Option<GuidanceState>,
) -> FlightPlan {
    FlightPlan {
        id: id.to_string(),
        name: "Sample".to_string(),
        route_components,
        route_component_uids: Vec::new(),
        route_component_uid_counter: 0,
        resolved_legs,
        guidance,
        departure: None,
        destination: None,
        alternate: None,
        cruise_altitude_ft: None,
        planned_departure_time_epoch_ms: None,
        notes: None,
        updated_at_epoch_ms: 0,
        version: 1,
    }
}

fn follow_plan(active_leg_index: usize, active_detail_index: Option<usize>) -> GuidanceState {
    GuidanceState {
        active_leg_index,
        active_detail_index,
        display_split_leg_id: None,
        sequencing_mode: SequencingMode::FollowPlan,
        direct_to: None,
        suspend_reason: None,
    }
}

fn sample_waypoint_only_plan() -> FlightPlan {
    let mut plan = plan_with(
        "plan-2",
        vec![
            waypoint(NavRef::Airport("KRNT".to_string())),
            waypoint(NavRef::Airport("KUAO".to_string())),
            waypoint(NavRef::Airport("KHIO".to_string())),
        ],
        vec![
            direct_leg(
                "component-0-1",
                NavRef::Airport("KRNT".to_string()),
                NavRef::Airport("KUAO".to_string()),
                0,
            ),
            direct_leg(
                "component-1-2",
                NavRef::Airport("KUAO".to_string()),
                NavRef::Airport("KHIO".to_string()),
                1,
            ),
        ],
        None,
    );
    plan.name = "Waypoint only".to_string();
    plan.departure = Some(AirportId("KRNT".to_string()));
    plan.destination = Some(AirportId("KHIO".to_string()));
    plan
}

fn sample_guided_waypoint_plan() -> FlightPlan {
    let mut plan = plan_with(
        "plan-3",
        vec![
            waypoint(NavRef::Airport("KRNT".to_string())),
            waypoint(NavRef::Navaid("SEA".to_string())),
            waypoint(NavRef::Fix("OLM".to_string())),
            waypoint(NavRef::Airport("KUAO".to_string())),
        ],
        vec![
            direct_leg(
                "component-0-1",
                NavRef::Airport("KRNT".to_string()),
                NavRef::Navaid("SEA".to_string()),
                0,
            ),
            direct_leg(
                "component-1-2",
                NavRef::Navaid("SEA".to_string()),
                NavRef::Fix("OLM".to_string()),
                1,
            ),
            direct_leg(
                "component-2-3",
                NavRef::Fix("OLM".to_string()),
                NavRef::Airport("KUAO".to_string()),
                2,
            ),
        ],
        Some(follow_plan(0, Some(0))),
    );
    plan.name = "Guided".to_string();
    plan.departure = Some(AirportId("KRNT".to_string()));
    plan.destination = Some(AirportId("KUAO".to_string()));
    plan
}

fn procedure(kind: ProcedureKind, terminal: Option<ProcedureDiscontinuity>) -> ProcedureSegment {
    ProcedureSegment {
        airport_id: AirportId("KUAO".to_string()),
        procedure_id: "RNAV17".to_string(),
        display_label: None,
        kind,
        runway_transition: None,
        enroute_transition: None,
        terminal_discontinuity: terminal,
        data_quality: Vec::new(),
    }
}

fn procedure_leg(
    id: &str,
    from: &str,
    to: &str,
    component_index: usize,
    discontinuity_after: Option<ProcedureDiscontinuity>,
    element_count: Option<usize>,
) -> ResolvedLeg {
    ResolvedLeg {
        id: id.to_string(),
        from: NavRef::Fix(from.to_string()),
        to: NavRef::Fix(to.to_string()),
        source: ResolvedLegSource::RouteComponent { component_index },
        procedure_provenance: Some(ProcedureLegProvenance {
            airport_id: "KUAO".to_string(),
            procedure_id: "RNAV17".to_string(),
            kind: ProcedureKind::Approach,
            role: ProcedureSegmentRole::Common,
            path_termination: PathTermination::TrackToFix,
            leg_sequence: 10,
            discontinuity_after,
            display_path: element_count.map(|count| LegDisplayPath {
                style: LegDisplayPathStyle::Solid,
                element_count: count,
            }),
        }),
    }
}

/// KRNT, an approach whose last leg ends in a discontinuity, then KUAO.
fn boundary_plan(terminal: ProcedureDiscontinuity, last_elements: usize) -> FlightPlan {
    plan_with(
        "plan-boundary",
        vec![
            waypoint(NavRef::Airport("KRNT".to_string())),
            RouteComponent::Procedure {
                procedure: procedure(ProcedureKind::Approach, Some(terminal)),
            },
            waypoint(NavRef::Airport("KUAO".to_string())),
        ],
        vec![
            ResolvedLeg {
                id: "bridge-0-1".to_string(),
                from: NavRef::Airport("KRNT".to_string()),
                to: NavRef::Fix("ALPHA".to_string()),
                source: ResolvedLegSource::SyntheticBridge {
                    from_component_index: 0,
                    to_component_index: 1,
                },
                procedure_provenance: None,
            },
            procedure_leg("p1", "ALPHA", "BRAVO", 1, None, Some(2)),
            procedure_leg("p2", "BRAVO", "CHARLIE", 1, None, Some(last_elements)),
            ResolvedLeg {
                id: "component-1-2".to_string(),
                from: NavRef::Fix("CHARLIE".to_string()),
                to: NavRef::Airport("KUAO".to_string()),
                source: ResolvedLegSource::SyntheticBridge {
                    from_component_index: 1,
                    to_component_index: 2,
                },
                procedure_provenance: None,
            },
        ],
        None,
    )
}

#[test]
fn follow_plan_sequencing_advances_until_route_end_then_suspends() {
    let once = sequence_active_leg(sample_guided_waypoint_plan()).unwrap();
    assert_eq!(once.guidance.as_ref().unwrap().active_leg_index, 1);
    assert_eq!(once.guidance.as_ref().unwrap().sequencing_mode, SequencingMode::FollowPlan);

    let twice = sequence_active_leg(once).unwrap();
    assert_eq!(twice.guidance.as_ref().unwrap().active_leg_index, 2);
    assert_eq!(twice.guidance.as_ref().unwrap().sequencing_mode, SequencingMode::FollowPlan);

    let done = sequence_active_leg(twice).unwrap();
    assert_eq!(done.guidance.as_ref().unwrap().active_leg_index, 2);
    assert_eq!(done.guidance.as_ref().unwrap().sequencing_mode, SequencingMode::Suspended);
    assert_eq!(done.guidance.as_ref().unwrap().suspend_reason, Some(SuspendReason::RouteEnd));
}

#[test]
fn unsuspend_sequencing_restores_follow_plan_when_not_at_boundary() {
    let suspended = suspend_sequencing(sample_guided_waypoint_plan()).unwrap();

    let unsuspended = unsuspend_sequencing(suspended).unwrap();

    let guidance = unsuspended.guidance.as_ref().unwrap();
    assert_eq!(guidance.active_leg_index, 0);
    assert_eq!(guidance.sequencing_mode, SequencingMode::FollowPlan);
}

#[test]
fn unsuspend_sequencing_rejects_non_suspended_mode() {
    let err = unsuspend_sequencing(sample_guided_waypoint_plan()).unwrap_err();
    assert_eq!(err.kind, AppErrorKind::UnsupportedOperation);
    assert_eq!(err.message, "sequencing is not suspended");
}

#[test]
fn activate_next_leg_rejects_end_of_route() {
    let plan = FlightPlan {
        guidance: Some(follow_plan(2, Some(2))),
        ..sample_guided_waypoint_plan()
    };

    let err = activate_next_leg(plan).unwrap_err();
    assert_eq!(err.kind, AppErrorKind::UnsupportedOperation);
    assert_eq!(err.message, "no next leg is available");
}

#[test]
fn stop_navigation_clears_guidance_without_mutating_route() {
    let plan = sample_guided_waypoint_plan();

    let stopped = stop_navigation(plan.clone()).unwrap();

    assert_eq!(stopped.guidance, None);
    assert_eq!(stopped.route_components, plan.route_components);
    assert_eq!(stopped.resolved_legs, plan.resolved_legs);
}

#[test]
fn stop_navigation_rejects_plan_without_guidance() {
    let err = stop_navigation(sample_waypoint_only_plan()).unwrap_err();
    assert_eq!(err.kind, AppErrorKind::UnsupportedOperation);
    assert_eq!(err.message, "cannot stop navigation without guidance state");
}

#[test]
fn flight_plan_controls_use_compact_labels() {
    let plan = sample_guided_waypoint_plan().normalized();
    let labels: Vec<String> = project_flight_plan_controls(&plan)
        .into_iter()
        .map(|control| control.label)
        .collect();
    assert_eq!(labels, vec!["Next\nLeg", "SQNC", "STOP\nNAV", "SUSP", "Unsusp", "Restore\nFP"]);
}

#[test]
fn stop_navigation_control_is_enabled_only_when_guidance_exists() {
    let guided = project_flight_plan_controls(&sample_guided_waypoint_plan().normalized());
    let stopped = project_flight_plan_controls(&stop_navigation(sample_guided_waypoint_plan()).unwrap());

    assert!(guided
        .iter()
        .find(|control| control.id == FlightPlanControlId::StopNavigation)
        .is_some_and(|control| control.enabled));
    let stop = stopped
        .iter()
        .find(|control| control.id == FlightPlanControlId::StopNavigation)
        .unwrap();
    assert!(!stop.enabled);
    assert_eq!(
        stop.disabled_reason.as_deref(),
        Some("No active guidance is available to stop.")
    );
}

#[test]
fn controls_follow_what_the_operations_allow() {
    let end = FlightPlan { guidance: Some(follow_plan(2, Some(2))), ..sample_guided_waypoint_plan() };
    let controls = project_flight_plan_controls(&end);
    assert!(!controls[0].enabled);
    assert_eq!(controls[0].disabled_reason.as_deref(), Some("No next leg is available."));
    assert!(activate_next_leg(end.clone()).is_err());
    assert!(controls[1].enabled);
    assert!(controls[3].enabled);
    assert!(!controls[4].enabled);

    let suspended = suspend_sequencing(end).unwrap();
    let controls = project_flight_plan_controls(&suspended);
    assert!(!controls[1].enabled);
    assert_eq!(
        controls[1].disabled_reason.as_deref(),
        Some("Unsuspend sequencing before sequencing the active leg.")
    );
    assert!(!controls[3].enabled);
    assert_eq!(controls[3].disabled_reason.as_deref(), Some("Sequencing is already suspended."));
    assert!(controls[4].enabled);
    assert!(!controls[5].enabled);
}

#[test]
fn suspend_sequencing_clears_a_direct_to() {
    let plan = FlightPlan {
        guidance: Some(GuidanceState {
            active_leg_index: 1,
            active_detail_index: Some(1),
            display_split_leg_id: Some("component-1-2".to_string()),
            sequencing_mode: SequencingMode::DirectTo,
            direct_to: Some(DirectToState {
                start: NavRef::LatLon(LatLon { lat_e7: 474_900_000, lon_e7: -1_222_160_000 }),
                target: NavRef::Fix("OLM".to_string()),
                target_row: DirectToTargetRow::Planned {
                    row_id: FlightPlanRowId("row-olm".to_string()),
                },
                resume_row_id: None,
            }),
            suspend_reason: None,
        }),
        ..sample_guided_waypoint_plan()
    };

    let suspended = suspend_sequencing(plan).unwrap();

    let guidance = suspended.guidance.as_ref().unwrap();
    assert_eq!(guidance.active_leg_index, 1);
    assert_eq!(guidance.sequencing_mode, SequencingMode::Suspended);
    assert_eq!(guidance.suspend_reason, Some(SuspendReason::Manual));
    assert!(guidance.direct_to.is_none());
    let active_leg = active_guidance_leg(suspended).unwrap();
    assert_eq!(active_leg.from, NavRef::Navaid("SEA".to_string()));
    assert_eq!(active_leg.to, NavRef::Fix("OLM".to_string()));
}

fn direct_to_plan(target_row: DirectToTargetRow) -> FlightPlan {
    FlightPlan {
        guidance: Some(GuidanceState {
            active_leg_index: 0,
            active_detail_index: Some(0),
            display_split_leg_id: None,
            sequencing_mode: SequencingMode::DirectTo,
            direct_to: Some(DirectToState {
                start: NavRef::LatLon(LatLon { lat_e7: 474_900_000, lon_e7: -1_222_160_000 }),
                target: NavRef::Navaid("SEA".to_string()),
                target_row,
                resume_row_id: None,
            }),
            suspend_reason: None,
        }),
        ..sample_guided_waypoint_plan()
    }
}

#[test]
fn direct_to_sequencing_resumes_at_the_resume_leg() {
    let plan = direct_to_plan(DirectToTargetRow::Planned { row_id: FlightPlanRowId("sea".to_string()) });
    let sequenced = sequence_active_leg_with_direct_to_legs(plan, Some(0), Some(1)).unwrap();
    let guidance = sequenced.guidance.unwrap();
    assert_eq!(guidance.active_leg_index, 1);
    assert_eq!(guidance.active_detail_index, Some(1));
    assert_eq!(guidance.display_split_leg_id.as_deref(), Some("component-1-2"));
    assert_eq!(guidance.sequencing_mode, SequencingMode::FollowPlan);
    assert!(guidance.direct_to.is_none());
}

#[test]
fn off_plan_direct_to_suspends_after_its_leg_completes() {
    let plan = direct_to_plan(DirectToTargetRow::Temporary {
        row_id: FlightPlanRowId("flight-plan-row:0000000000000004".to_string()),
    });
    assert!(flight_plan_has_direct_to_overlay(&plan));
    let sequenced = sequence_active_leg(plan).unwrap();
    let guidance = sequenced.guidance.as_ref().unwrap();
    assert_eq!(guidance.sequencing_mode, SequencingMode::Suspended);
    assert_eq!(guidance.suspend_reason, Some(SuspendReason::DirectToComplete));
    assert!(guidance.direct_to.is_none());
    assert!(active_guidance_leg(sequenced).is_none());
}

#[test]
fn restoring_a_direct_to_returns_to_the_plan() {
    let plan = direct_to_plan(DirectToTargetRow::Temporary {
        row_id: FlightPlanRowId("flight-plan-row:0000000000000004".to_string()),
    });
    let controls = project_flight_plan_controls(&plan);
    assert!(controls[5].enabled);
    let restored = restore_direct_to(plan).unwrap();
    let guidance = restored.guidance.unwrap();
    assert_eq!(guidance.active_leg_index, 0);
    assert_eq!(guidance.sequencing_mode, SequencingMode::FollowPlan);
    assert!(guidance.direct_to.is_none());
}

#[test]
fn sequencing_suspends_at_a_discontinuous_procedure_boundary() {
    let plan = FlightPlan {
        guidance: Some(follow_plan(2, Some(3))),
        ..boundary_plan(ProcedureDiscontinuity::Vectors, 1)
    };
    assert!(should_suspend_after_active_leg(&plan, 2));
    assert!(!should_suspend_after_active_leg(&plan, 1));

    let sequenced = sequence_active_leg(plan.clone()).unwrap();
    let guidance = sequenced.guidance.as_ref().unwrap();
    assert_eq!(guidance.active_leg_index, 2);
    assert_eq!(guidance.sequencing_mode, SequencingMode::Suspended);
    assert_eq!(guidance.suspend_reason, Some(SuspendReason::Boundary));

    let next = activate_next_leg(sequenced.clone()).unwrap();
    assert_eq!(next.guidance.as_ref().unwrap().active_leg_index, 3);
    assert_eq!(next.guidance.as_ref().unwrap().sequencing_mode, SequencingMode::FollowPlan);

    let unsuspended = unsuspend_sequencing(sequenced).unwrap();
    assert_eq!(unsuspended.guidance.as_ref().unwrap().active_leg_index, 3);
    assert_eq!(
        unsuspended.guidance.as_ref().unwrap().sequencing_mode,
        SequencingMode::FollowPlan
    );
}

#[test]
fn guidance_details_number_each_drawn_element() {
    let plan = boundary_plan(ProcedureDiscontinuity::Hold, 6);
    let details = guidance_detail_refs(&plan);
    assert_eq!(details.len(), 10);
    assert_eq!(details[3].leg_index, 2);
    assert_eq!(details[3].element_index, 0);
    assert_eq!(details[8].leg_index, 2);
    assert_eq!(details[8].element_index, 5);
    assert_eq!(details[9].leg_id, "component-1-2");
    assert_eq!(first_guidance_detail_index_for_leg(&plan, 2), Some(3));
    assert_eq!(first_guidance_detail_index_for_leg(&plan, 4), None);
    assert_eq!(guidance_detail_ref_by_index(&plan, 5), Some(details[5].clone()));
    assert_eq!(guidance_detail_ref_by_index(&plan, 10), None);
}

#[test]
fn terminal_hold_starts_four_elements_before_the_end() {
    let plan = boundary_plan(ProcedureDiscontinuity::Hold, 6);
    assert_eq!(terminal_hold_start_element_index_for_leg(&plan, 2), Some(2));
    assert_eq!(terminal_hold_start_detail_index_for_leg(&plan, 2), Some(5));
    assert_eq!(terminal_hold_start_element_index_for_leg(&plan, 1), None);
    let short = boundary_plan(ProcedureDiscontinuity::Hold, 4);
    assert_eq!(terminal_hold_start_element_index_for_leg(&short, 2), None);
    let vectors = boundary_plan(ProcedureDiscontinuity::Vectors, 6);
    assert_eq!(terminal_hold_start_element_index_for_leg(&vectors, 2), None);
}

#[test]
fn sequencing_details_suspends_entering_a_terminal_hold() {
    let plan = FlightPlan {
        guidance: Some(follow_plan(2, Some(4))),
        ..boundary_plan(ProcedureDiscontinuity::Hold, 6)
    };
    let held = sequence_active_detail(plan).unwrap();
    let guidance = held.guidance.as_ref().unwrap();
    assert_eq!(guidance.active_leg_index, 2);
    assert_eq!(guidance.active_detail_index, Some(5));
    assert_eq!(guidance.sequencing_mode, SequencingMode::Suspended);
    assert_eq!(guidance.suspend_reason, Some(SuspendReason::Boundary));
    assert!(active_guidance_leg(held.clone()).is_some());

    let holding = unsuspend_sequencing(held).unwrap();
    let guidance = holding.guidance.as_ref().unwrap();
    assert_eq!(guidance.active_leg_index, 2);
    assert_eq!(guidance.active_detail_index, Some(5));
    assert_eq!(guidance.sequencing_mode, SequencingMode::FollowPlan);

    let within = sequence_active_detail(holding).unwrap();
    assert_eq!(within.guidance.as_ref().unwrap().active_detail_index, Some(6));
    assert_eq!(within.guidance.as_ref().unwrap().sequencing_mode, SequencingMode::FollowPlan);
}

#[test]
fn leaving_a_terminal_hold_moves_to_the_next_leg() {
    let plan = FlightPlan {
        guidance: Some(follow_plan(2, Some(8))),
        ..boundary_plan(ProcedureDiscontinuity::Hold, 6)
    };
    let next = sequence_active_detail(plan).unwrap();
    let guidance = next.guidance.as_ref().unwrap();
    assert_eq!(guidance.active_leg_index, 3);
    assert_eq!(guidance.active_detail_index, Some(9));
    assert_eq!(guidance.sequencing_mode, SequencingMode::FollowPlan);
}

#[test]
fn reaching_the_last_drawn_vectors_element_suspends_guidance() {
    let mut plan = sample_guided_waypoint_plan();
    plan.resolved_legs[1] = procedure_leg(
        "component-1-2",
        "SEA",
        "OLM",
        1,
        Some(ProcedureDiscontinuity::Vectors),
        Some(3),
    );
    let manual = activate_leg_at_detail_index(plan.clone(), 1, 3).unwrap();
    let guidance = manual.guidance.as_ref().unwrap();
    assert_eq!(guidance.sequencing_mode, SequencingMode::Suspended);
    assert_eq!(guidance.suspend_reason, Some(SuspendReason::Boundary));
    assert!(active_guidance_leg(manual).is_some());

    let drawn = activate_leg_at_detail_index(plan.clone(), 1, 2).unwrap();
    assert_eq!(drawn.guidance.as_ref().unwrap().sequencing_mode, SequencingMode::FollowPlan);

    let err = activate_leg_at_detail_index(plan.clone(), 0, 2).unwrap_err();
    assert_eq!(err.kind, AppErrorKind::UnsupportedOperation);
    assert_eq!(err.message, "guidance detail 2 belongs to leg 1, not 0");
    let err = activate_leg_at_detail_index(plan, 0, 40).unwrap_err();
    assert_eq!(err.message, "guidance detail index out of bounds: 40");
}

#[test]
fn activate_leg_reports_the_missing_leg() {
    let err = activate_leg(sample_guided_waypoint_plan(), 7).unwrap_err();
    assert_eq!(err.kind, AppErrorKind::UnsupportedOperation);
    assert_eq!(err.message, "leg index out of bounds: 7");

    let activated = activate_leg(sample_guided_waypoint_plan(), 2).unwrap();
    let guidance = activated.guidance.as_ref().unwrap();
    assert_eq!(guidance.active_leg_index, 2);
    assert_eq!(guidance.active_detail_index, Some(2));
    assert_eq!(guidance.display_split_leg_id.as_deref(), Some("component-2-3"));
    let leg = active_guidance_leg(activated).unwrap();
    assert_eq!(leg.from, NavRef::Fix("OLM".to_string()));
    assert_eq!(leg.to, NavRef::Airport("KUAO".to_string()));
}

#[test]
fn sequencing_without_guidance_is_refused() {
    let err = sequence_active_leg(sample_waypoint_only_plan()).unwrap_err();
    assert_eq!(err.kind, AppErrorKind::UnsupportedOperation);
    assert_eq!(err.message, "cannot sequence a plan without guidance state");
    let err = sequence_active_detail(sample_waypoint_only_plan()).unwrap_err();
    assert_eq!(err.message, "cannot sequence a plan without guidance state");
    let stale = FlightPlan { guidance: Some(follow_plan(0, Some(9))), ..sample_guided_waypoint_plan() };
    let err = sequence_active_leg(stale).unwrap_err();
    assert_eq!(err.kind, AppErrorKind::InvalidFlightPlan);
    assert_eq!(err.message, "guidance detail index out of bounds: 9");
}

#[test]
fn sequencing_keeps_suspended_guidance() {
    let suspended = suspend_sequencing(sample_guided_waypoint_plan()).unwrap();
    let again = sequence_active_leg(suspended.clone()).unwrap();
    assert_eq!(again.guidance, suspended.guidance);
}

#[test]
fn normalizing_assigns_distinct_uids_and_direct_legs() {
    let mut plan = sample_waypoint_only_plan();
    plan.resolved_legs.clear();
    plan.route_component_uids = vec!["keep".to_string(), "keep".to_string()];
    plan.route_component_uid_counter = 3;
    let normalized = plan.normalized();
    assert_eq!(
        normalized.route_component_uids,
        vec!["keep", "fpc:0000000000000003", "fpc:0000000000000004"]
    );
    assert_eq!(normalized.route_component_uid_counter, 5);
    assert_eq!(normalized.resolved_legs.len(), 2);
    assert_eq!(normalized.resolved_legs[1].id, "component-1-2");
    assert_eq!(normalized.resolved_legs[1].from, NavRef::Airport("KUAO".to_string()));

    let mut taken = sample_waypoint_only_plan();
    taken.route_component_uids = vec!["fpc:0000000000000000".to_string()];
    let normalized = taken.normalized();
    assert_eq!(
        normalized.route_component_uids,
        vec!["fpc:0000000000000000", "fpc:0000000000000001", "fpc:0000000000000002"]
    );
    assert_eq!(normalized.route_component_uid_counter, 3);
}

#[test]
fn direct_legs_join_only_adjacent_waypoints() {
    let components = vec![
        waypoint(NavRef::Airport("KRNT".to_string())),
        RouteComponent::Procedure { procedure: procedure(ProcedureKind::Approach, None) },
        waypoint(NavRef::Airport("KUAO".to_string())),
        waypoint(NavRef::Fix("OLM".to_string())),
    ];
    let legs = resolved_legs_from_waypoint_components(&components);
    assert_eq!(legs.len(), 1);
    assert_eq!(legs[0].id, "component-2-3");
    assert_eq!(legs[0].source, ResolvedLegSource::RouteComponent { component_index: 2 });
}

#[test]
fn route_lookups_find_waypoints_airways_and_procedure_airports() {
    let mut plan = sample_guided_waypoint_plan();
    plan.route_components.push(waypoint(NavRef::Navaid("SEA".to_string())));
    assert!(flight_plan_contains_nav_ref(&plan, &NavRef::Fix("OLM".to_string())));
    assert!(!flight_plan_contains_nav_ref(&plan, &NavRef::Fix("BTG".to_string())));
    assert_eq!(top_level_waypoint_component_index(&plan, &NavRef::Navaid("SEA".to_string())), Some(1));
    assert_eq!(top_level_waypoint_component_count(&plan, &NavRef::Navaid("SEA".to_string())), 2);
    assert_eq!(top_level_waypoint_component_index(&plan, &NavRef::Fix("BTG".to_string())), None);
    let boundary = boundary_plan(ProcedureDiscontinuity::Hold, 6);
    assert!(flight_plan_contains_nav_ref(&boundary, &NavRef::Airport("KUAO".to_string())));
}
