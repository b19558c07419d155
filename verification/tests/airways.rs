use app_core::direct_to::identity_rows;
use app_core::flight_plan::{FlightPlan, ResolvedLeg};
use app_core::guidance::ResolvedLegSource;
use app_core::nav::NavRef;
use app_core::plan_edits::insert_airway_after_waypoint;
use app_core::route::{AirwaySegment, RouteComponent};

fn fix(ident: &str) -> NavRef {
    NavRef::Fix(ident.to_string())
}

fn airway(name: &str, points: &[NavRef]) -> (AirwaySegment, Vec<ResolvedLeg>) {
    (
        AirwaySegment {
            name: name.to_string(),
            branch_key: Some(format!("{name}-branch")),
            entry: points.first().unwrap().clone(),
            exit: points.last().unwrap().clone(),
        },
        points
            .windows(2)
            .enumerate()
            .map(|(index, pair)| ResolvedLeg {
                id: format!("{name}-{index}"),
                from: pair[0].clone(),
                to: pair[1].clone(),
                source: ResolvedLegSource::RouteComponent { component_index: 999 },
                procedure_provenance: None,
            })
            .collect(),
    )
}

fn append_airway(plan: &FlightPlan, name: &str, points: &[NavRef]) -> FlightPlan {
    let (airway, legs) = airway(name, points);
    insert_airway_after_waypoint(plan.clone(), plan.route_components.len() - 1, airway, legs).unwrap()
}

fn waypoints(points: &[NavRef]) -> FlightPlan {
    FlightPlan {
        route_components: points
            .iter()
            .cloned()
            .map(|waypoint| RouteComponent::Waypoint { waypoint })
            .collect(),
        ..FlightPlan::default()
    }
    .normalized()
}

fn start_at(ident: &str) -> FlightPlan {
    waypoints(&[fix(ident)])
}

fn project_identity_rows(plan: &FlightPlan) -> Vec<app_core::rows::FlightPlanDisplayRowUiView> {
    identity_rows(&plan.clone().normalized())
}

#[test]
fn airway_endpoints_are_real_waypoints_and_exit_can_extend_route() {
    let initial = start_at("BANDR");
    let entry_id = project_identity_rows(&initial)[0].uid.clone();
    let plan = append_airway(&initial, "V2", &[fix("BANDR"), fix("MID"), fix("ELN")]);
    let rows = project_identity_rows(&plan);
    assert_eq!(
        rows.iter().map(|row| (row.label.as_str(), row.depth)).collect::<Vec<_>>(),
        vec![("BANDR", 0), ("V2", 0), ("MID", 1), ("ELN", 0)]
    );
    assert_eq!(rows[0].uid, entry_id, "inserting an airway preserves the entry occurrence");
    let exit = rows.last().unwrap();
    assert!(exit.can_add_airway_after, "the airway exit must support continuing the route");
    let continued = append_airway(&plan, "V187", &[fix("ELN"), fix("NEXT"), fix("PSC")]);
    let continued_rows = project_identity_rows(&continued);
    let junctions = continued_rows
        .iter()
        .filter(|row| row.nav_ref.as_ref() == Some(&fix("ELN")))
        .collect::<Vec<_>>();
    assert_eq!(junctions.len(), 1);
    assert_eq!(junctions[0].uid, exit.uid);
    assert_eq!(junctions[0].depth, 0);
}
