use app_core::component_views::{project_component_ui_views, project_identity_rows};
use app_core::display_rows::{child_waypoint_row_leg_index, top_level_waypoint_row_leg_index};
use app_core::flight_plan::{FlightPlan, ResolvedLeg};
use app_core::guidance::{
    DirectToState, DirectToTargetRow, FlightPlanRowId, GuidanceState, ResolvedLegSource,
    SequencingMode,
};
use app_core::nav::{AirportId, LatLon, NavRef};
use app_core::projection::project_display_rows;
use app_core::route::{
    AirwaySegment, ConcretizedNavItem, ProcedureDiscontinuity, ProcedureKind, ProcedureSegment,
    RouteComponent, RouteComponentViewKind,
};
use app_core::row_actions::{FlightPlanRowActionId, FlightPlanRowActionUiView};
use app_core::rows::{FlightPlanDisplayRowKind, FlightPlanDisplayRowUiView, RouteComponentUiView};

fn leg(id: &str, from: NavRef, to: NavRef, source: ResolvedLegSource) -> ResolvedLeg {
    ResolvedLeg { id: id.to_string(), from, to, source, procedure_provenance: None }
}

fn from_component(component_index: usize) -> ResolvedLegSource {
    ResolvedLegSource::RouteComponent { component_index }
}

fn airport(id: &str) -> NavRef {
    NavRef::Airport(id.to_string())
}

fn fix(id: &str) -> NavRef {
    NavRef::Fix(id.to_string())
}

fn plan(
    route_components: Vec<RouteComponent>,
    resolved_legs: Vec<ResolvedLeg>,
    guidance: Option<GuidanceState>,
) -> FlightPlan {
    let uids = (0..route_components.len()).map(|i| format!("u{i}")).collect();
    FlightPlan {
        id: "plan".to_string(),
        name: "Projection".to_string(),
        route_component_uid_counter: route_components.len() as u64,
        route_components,
        route_component_uids: uids,
        resolved_legs,
        guidance,
        departure: None,
        destination: None,
        alternate: None,
        cruise_altitude_ft: None,
        planned_departure_time_epoch_ms: None,
        notes: None,
        updated_at_epoch_ms: 0,
        version: 1,
    }
}

fn component_view(
    component_index: usize,
    kind: RouteComponentViewKind,
    summary: &str,
    nav_ref: Option<NavRef>,
    items: Vec<ConcretizedNavItem>,
) -> RouteComponentUiView {
    let chart_airport_id = match &nav_ref {
        Some(NavRef::Airport(code)) => Some(code.clone()),
        _ => None,
    };
    RouteComponentUiView {
        uid: format!("u{component_index}"),
        component_index,
        kind,
        summary: summary.to_string(),
        procedure_id: None,
        procedure_kind: None,
        chart_airport_id,
        nav_ref,
        items,
        active: false,
        can_add_airway_after: false,
        can_add_procedure_before: false,
        can_remove: true,
        can_reorder: true,
        can_reorder_up: component_index > 0,
        can_reorder_down: true,
        replace_procedure_component_index: None,
        preceding_waypoint: None,
        following_waypoint: None,
    }
}

fn waypoint_view(component_index: usize, nav_ref: NavRef, label: &str) -> RouteComponentUiView {
    component_view(
        component_index,
        RouteComponentViewKind::Waypoint,
        label,
        Some(nav_ref.clone()),
        vec![ConcretizedNavItem::Waypoint { nav_ref }],
    )
}

fn three_airports(guidance: Option<GuidanceState>) -> (FlightPlan, Vec<RouteComponentUiView>) {
    let plan = plan(
        vec![
            RouteComponent::Waypoint { waypoint: airport("KRNT") },
            RouteComponent::Waypoint { waypoint: airport("KUAO") },
            RouteComponent::Waypoint { waypoint: airport("KHIO") },
        ],
        vec![
            leg("component-0-1", airport("KRNT"), airport("KUAO"), from_component(0)),
            leg("component-1-2", airport("KUAO"), airport("KHIO"), from_component(1)),
        ],
        guidance,
    );
    let views = vec![
        waypoint_view(0, airport("KRNT"), "KRNT"),
        waypoint_view(1, airport("KUAO"), "KUAO"),
        waypoint_view(2, airport("KHIO"), "KHIO"),
    ];
    (plan, views)
}

fn actions(row: &FlightPlanDisplayRowUiView) -> Vec<FlightPlanRowActionUiView> {
    row.action_matrix.iter().flatten().cloned().collect()
}

fn find(row: &FlightPlanDisplayRowUiView, id: FlightPlanRowActionId) -> FlightPlanRowActionUiView {
    actions(row).into_iter().find(|a| a.id == id).expect("action present")
}

fn follow_plan(active_leg_index: usize) -> GuidanceState {
    GuidanceState {
        active_leg_index,
        active_detail_index: Some(active_leg_index),
        display_split_leg_id: None,
        sequencing_mode: SequencingMode::FollowPlan,
        direct_to: None,
        suspend_reason: None,
    }
}

#[test]
fn waypoint_rows_activate_the_leg_that_ends_at_them() {
    let (plan, views) = three_airports(None);
    assert_eq!(top_level_waypoint_row_leg_index(&plan, 0), None);
    assert_eq!(top_level_waypoint_row_leg_index(&plan, 1), Some(0));
    assert_eq!(top_level_waypoint_row_leg_index(&plan, 2), Some(1));
    assert_eq!(top_level_waypoint_row_leg_index(&plan, 3), None);

    let rows = project_display_rows(&plan, &views);
    assert_eq!(rows.len(), 3);
    assert_eq!(rows[0].uid, "component:u0:Waypoint:waypoint");
    assert_eq!(rows[1].label, "KUAO");
    assert_eq!(rows[1].leg_index, Some(0));
    assert_eq!(rows[2].leg_index, Some(1));
    assert_eq!(rows[0].chart_airport_id.as_deref(), Some("KRNT"));
    assert!(rows.iter().all(|row| row.enabled && row.depth == 0));
    assert!(!find(&rows[0], FlightPlanRowActionId::ActivateLeg).enabled);
    let activate = find(&rows[1], FlightPlanRowActionId::ActivateLeg);
    assert!(activate.enabled);
    assert_eq!(activate.uid, "component:u1:Waypoint:waypoint:action:ActivateLeg");
    let plates = find(&rows[2], FlightPlanRowActionId::Plates);
    assert!(plates.enabled);
    assert!(plates.navigation.is_some());
}

#[test]
fn the_active_leg_is_not_offered_again() {
    let (plan, views) = three_airports(Some(follow_plan(0)));
    let rows = project_display_rows(&plan, &views);
    let active = find(&rows[1], FlightPlanRowActionId::ActivateLeg);
    assert!(!active.enabled);
    assert_eq!(active.disabled_reason.as_deref(), Some("This leg is already active."));
    assert!(find(&rows[2], FlightPlanRowActionId::ActivateLeg).enabled);
}

#[test]
fn an_off_plan_direct_to_closes_every_other_row() {
    let (mut plan, views) = three_airports(None);
    plan.guidance = Some(GuidanceState {
        active_leg_index: 0,
        active_detail_index: Some(0),
        display_split_leg_id: None,
        sequencing_mode: SequencingMode::DirectTo,
        direct_to: Some(DirectToState {
            start: NavRef::LatLon(LatLon { lat_e7: 474_900_000, lon_e7: -1_222_160_000 }),
            target: fix("OLM"),
            target_row: DirectToTargetRow::Temporary {
                row_id: FlightPlanRowId("flight-plan-row:0000000000000004".to_string()),
            },
            resume_row_id: None,
        }),
        suspend_reason: None,
    });
    let rows = project_display_rows(&plan, &views);
    assert_eq!(rows.len(), 4);
    let reason = Some("Restore FP before editing the flight plan.");
    for row in &rows[..3] {
        assert!(!row.enabled);
        assert_eq!(row.disabled_reason.as_deref(), reason);
        assert!(actions(row).iter().all(|a| !a.enabled && a.disabled_reason.as_deref() == reason));
    }
    let direct_to = &rows[3];
    assert!(direct_to.synthetic_direct_to && direct_to.enabled && direct_to.active);
    assert_eq!(direct_to.uid, "flight-plan-row:0000000000000004");
    assert_eq!(direct_to.label, "OLM");
    assert_eq!(direct_to.component_index, None);
    assert_eq!(direct_to.destination_anchor, Some(fix("OLM")));
    let info = actions(direct_to);
    assert_eq!(info.len(), 1);
    assert_eq!(info[0].id, FlightPlanRowActionId::WaypointInfo);
    assert_eq!(info[0].uid, "flight-plan-row:0000000000000004:action:WaypointInfo");
}

#[test]
fn an_airway_lists_its_waypoints_under_a_group_row() {
    let plan = plan(
        vec![
            RouteComponent::Waypoint { waypoint: airport("KSEA") },
            RouteComponent::Airway {
                airway: AirwaySegment {
                    name: "V23".to_string(),
                    branch_key: None,
                    entry: fix("ALPHA"),
                    exit: fix("GAMMA"),
                },
            },
            RouteComponent::Waypoint { waypoint: airport("KPDX") },
        ],
        vec![
            leg("bridge", airport("KSEA"), fix("ALPHA"), ResolvedLegSource::SyntheticBridge {
                from_component_index: 0,
                to_component_index: 1,
            }),
            leg("v23-1", fix("ALPHA"), fix("BRAVO"), from_component(1)),
            leg("v23-2", fix("BRAVO"), fix("GAMMA"), from_component(1)),
            leg("component-2", fix("GAMMA"), airport("KPDX"), from_component(1)),
        ],
        None,
    );
    let airway_items = vec![
        ConcretizedNavItem::Waypoint { nav_ref: fix("ALPHA") },
        ConcretizedNavItem::Waypoint { nav_ref: fix("BRAVO") },
        ConcretizedNavItem::Waypoint { nav_ref: fix("GAMMA") },
    ];
    let views = vec![
        waypoint_view(0, airport("KSEA"), "KSEA"),
        component_view(1, RouteComponentViewKind::Airway, "V23", None, airway_items),
        waypoint_view(2, airport("KPDX"), "KPDX"),
    ];
    assert_eq!(child_waypoint_row_leg_index(&plan, 1, 0, 0, &fix("ALPHA")), Some(0));
    assert_eq!(child_waypoint_row_leg_index(&plan, 1, 1, 0, &fix("BRAVO")), Some(1));
    assert_eq!(child_waypoint_row_leg_index(&plan, 1, 2, 1, &fix("GAMMA")), None);

    let rows = project_display_rows(&plan, &views);
    assert_eq!(rows.len(), 6);
    assert_eq!(rows[1].uid, "component:u1:Airway:group");
    assert_eq!(rows[1].row_kind, FlightPlanDisplayRowKind::Group);
    assert_eq!(rows[1].label, "V23");
    assert_eq!(rows[2].uid, "component:u1:Airway:child:0:fix:ALPHA");
    assert_eq!(rows[2].depth, 1);
    assert_eq!(rows[2].leg_index, Some(0));
    assert_eq!(rows[3].leg_index, Some(1));
    assert_eq!(rows[4].leg_index, Some(2));
    assert!(!rows[2].can_remove_component);
    assert!(find(&rows[2], FlightPlanRowActionId::Remove).enabled);
    assert!(!find(&rows[3], FlightPlanRowActionId::Remove).enabled);
    assert!(find(&rows[4], FlightPlanRowActionId::Remove).enabled);
    assert_eq!(rows[5].uid, "component:u2:Waypoint:waypoint");
}

#[test]
fn a_procedure_hold_row_activates_the_procedures_last_leg() {
    let plan = plan(
        vec![RouteComponent::Waypoint { waypoint: airport("KSEA") }],
        vec![leg("hold", fix("ALPHA"), fix("BRAVO"), from_component(1))],
        None,
    );
    let items = vec![
        ConcretizedNavItem::Waypoint { nav_ref: fix("BRAVO") },
        ConcretizedNavItem::Discontinuity {
            discontinuity: ProcedureDiscontinuity::Hold,
            label: "HOLD".to_string(),
        },
        ConcretizedNavItem::Discontinuity {
            discontinuity: ProcedureDiscontinuity::Vectors,
            label: "VECTORS".to_string(),
        },
    ];
    let views = vec![component_view(1, RouteComponentViewKind::Procedure, "ILS 16R", None, items)];
    let rows = project_display_rows(&plan, &views);
    assert_eq!(rows.len(), 4);
    assert_eq!(rows[2].row_kind, FlightPlanDisplayRowKind::Discontinuity);
    assert_eq!(rows[2].uid, "component:u1:Procedure:disc:1:HOLD");
    assert_eq!(rows[2].leg_index, Some(0));
    assert!(find(&rows[2], FlightPlanRowActionId::ActivateLeg).enabled);
    assert_eq!(rows[3].leg_index, None);
    assert!(!find(&rows[3], FlightPlanRowActionId::ActivateLeg).enabled);
}

#[test]
fn plain_waypoint_components_can_be_removed_and_moved_within_the_route() {
    let (plan, _) = three_airports(None);
    let components = project_component_ui_views(&plan, Some(1), &[true, true, true]);
    assert_eq!(components.len(), 3);
    assert!(components.iter().all(|component| component.can_remove && component.can_reorder));
    assert!(!components[0].can_reorder_up);
    assert!(components[0].can_reorder_down);
    assert!(components[1].can_reorder_up && components[1].can_reorder_down);
    assert!(components[2].can_reorder_up);
    assert!(!components[2].can_reorder_down);
    assert!(components.iter().all(|component| component.can_add_airway_after));
    assert!(components[1].active && !components[0].active);
    assert_eq!(components[1].uid, "u1");
    assert_eq!(components[1].summary, "KUAO");
    assert_eq!(components[1].chart_airport_id.as_deref(), Some("KUAO"));
    assert_eq!(components[1].preceding_waypoint, Some(airport("KRNT")));
    assert_eq!(components[1].following_waypoint, Some(airport("KHIO")));
    assert_eq!(components[0].preceding_waypoint, None);
    assert!(components[2].can_add_procedure_before);
    assert_eq!(
        components[1].items,
        vec![ConcretizedNavItem::Waypoint { nav_ref: airport("KUAO") }]
    );
}

#[test]
fn a_component_that_cannot_be_deleted_offers_no_remove() {
    let (plan, _) = three_airports(None);
    let components = project_component_ui_views(&plan, None, &[true, false, true]);
    assert!(!components[1].can_remove);
    let rows = project_identity_rows(&plan, &[true, false, true]);
    let remove = find(&rows[1], FlightPlanRowActionId::Remove);
    assert!(!remove.enabled);
    assert!(find(&rows[0], FlightPlanRowActionId::Remove).enabled);
}

#[test]
fn move_row_actions_keep_the_tray_open() {
    let (plan, _) = three_airports(None);
    let rows = project_identity_rows(&plan, &[true, true, true]);
    assert_eq!(rows.len(), 3);
    assert!(!find(&rows[0], FlightPlanRowActionId::MoveUp).enabled);
    let down = find(&rows[0], FlightPlanRowActionId::MoveDown);
    assert!(down.enabled);
    assert!(!down.dismiss_tray_on_success);
    assert!(find(&rows[1], FlightPlanRowActionId::MoveUp).enabled);
    assert!(!find(&rows[2], FlightPlanRowActionId::MoveDown).enabled);
}

#[test]
fn a_procedure_group_row_shows_its_display_label() {
    let procedure = ProcedureSegment {
        airport_id: AirportId("KSEA".to_string()),
        procedure_id: "I34R".to_string(),
        display_label: Some("ILS or LOC 34R".to_string()),
        kind: ProcedureKind::Approach,
        runway_transition: None,
        enroute_transition: Some("JIPOX".to_string()),
        terminal_discontinuity: None,
        data_quality: Vec::new(),
    };
    let plan = plan(vec![RouteComponent::Procedure { procedure }], Vec::new(), None);
    let components = project_component_ui_views(&plan, None, &[true]);
    assert_eq!(components.len(), 1);
    assert_eq!(components[0].summary, "ILS or LOC 34R");
    assert_eq!(components[0].procedure_id.as_deref(), Some("I34R"));
    assert_eq!(components[0].chart_airport_id.as_deref(), Some("KSEA"));
    let rows = project_identity_rows(&plan, &[true]);
    assert_eq!(rows.len(), 1);
    assert_eq!(rows[0].label, "ILS or LOC 34R");
    assert_eq!(rows[0].uid, "component:u0:Procedure:group");
    let show_plate = find(&rows[0], FlightPlanRowActionId::ShowPlate);
    assert!(show_plate.enabled);
}
