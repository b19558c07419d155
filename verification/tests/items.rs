use app_core::flight_plan::{LegDisplayPath, ProcedureLegProvenance, ResolvedLeg};
use app_core::guidance::{LegDisplayPathStyle, ProcedureSegmentRole, ResolvedLegSource};
use app_core::items::{dedupe_component_items_for_projection, raw_component_ui_items};
use app_core::nav::{AirportId, NavRef};
use app_core::route::{
    AirwaySegment, ConcretizedNavItem, PathTermination, ProcedureDiscontinuity, ProcedureKind,
    ProcedureSegment, RouteComponent,
};

fn fix(id: &str) -> NavRef {
    NavRef::Fix(id.to_string())
}

fn wp(id: &str) -> ConcretizedNavItem {
    ConcretizedNavItem::Waypoint { nav_ref: fix(id) }
}

fn airway(entry: &str, exit: &str) -> RouteComponent {
    RouteComponent::Airway {
        airway: AirwaySegment {
            name: "V4".to_string(),
            branch_key: None,
            entry: fix(entry),
            exit: fix(exit),
        },
    }
}

fn leg(from: &str, to: &str, after: Option<ProcedureDiscontinuity>) -> ResolvedLeg {
    ResolvedLeg {
        id: format!("{from}-{to}"),
        from: fix(from),
        to: fix(to),
        source: ResolvedLegSource::RouteComponent { component_index: 1 },
        procedure_provenance: Some(ProcedureLegProvenance {
            airport_id: "KPAE".to_string(),
            procedure_id: "ILS16".to_string(),
            kind: ProcedureKind::Approach,
            role: ProcedureSegmentRole::Common,
            path_termination: PathTermination::TrackToFix,
            leg_sequence: 1,
            discontinuity_after: after,
            display_path: Some(LegDisplayPath { style: LegDisplayPathStyle::Solid, element_count: 1 }),
        }),
    }
}

fn approach(terminal: Option<ProcedureDiscontinuity>) -> RouteComponent {
    RouteComponent::Procedure {
        procedure: ProcedureSegment {
            airport_id: AirportId("KPAE".to_string()),
            procedure_id: "ILS16".to_string(),
            display_label: None,
            kind: ProcedureKind::Approach,
            runway_transition: None,
            enroute_transition: None,
            terminal_discontinuity: terminal,
            data_quality: Vec::new(),
        },
    }
}

#[test]
fn airway_lists_its_entry_and_leg_ends_once_each() {
    let legs = vec![leg("A", "B", None), leg("B", "B", None), leg("B", "C", None)];
    let items = raw_component_ui_items(&airway("A", "C"), legs);
    assert_eq!(items, vec![wp("A"), wp("B"), wp("C")]);
    let bare = raw_component_ui_items(&airway("A", "A"), Vec::new());
    assert_eq!(bare, vec![wp("A")]);
}

#[test]
fn procedure_lists_its_breaks() {
    let legs = vec![leg("A", "B", Some(ProcedureDiscontinuity::Vectors)), leg("C", "D", None)];
    let items = raw_component_ui_items(&approach(Some(ProcedureDiscontinuity::Hold)), legs);
    assert_eq!(
        items,
        vec![
            wp("A"),
            wp("B"),
            ConcretizedNavItem::Discontinuity {
                discontinuity: ProcedureDiscontinuity::Vectors,
                label: "VECTORS".to_string(),
            },
            wp("D"),
            ConcretizedNavItem::Discontinuity {
                discontinuity: ProcedureDiscontinuity::Hold,
                label: "HOLD".to_string(),
            },
        ]
    );
    let ends_in_break = raw_component_ui_items(
        &approach(Some(ProcedureDiscontinuity::Hold)),
        vec![leg("A", "B", Some(ProcedureDiscontinuity::Vectors))],
    );
    assert_eq!(ends_in_break.len(), 3);
    let nothing_kept = raw_component_ui_items(&approach(None), Vec::new());
    assert!(nothing_kept.is_empty());
}

#[test]
fn projection_lists_a_shared_waypoint_once() {
    let components = vec![
        RouteComponent::Waypoint { waypoint: fix("A") },
        airway("A", "B"),
        RouteComponent::Waypoint { waypoint: fix("B") },
        airway("B", "C"),
        airway("C", "D"),
    ];
    let per = dedupe_component_items_for_projection(&components, &Vec::new());
    assert_eq!(per.len(), 5);
    assert_eq!(per[0], vec![wp("A")]);
    assert_eq!(per[1], Vec::<ConcretizedNavItem>::new());
    assert_eq!(per[2], vec![wp("B")]);
    assert_eq!(per[3], Vec::<ConcretizedNavItem>::new());
    assert_eq!(per[4], vec![wp("C"), wp("D")]);
}
