//! The flight plan as the pilot's view shows it: its rows, its controls and
//! where guidance is.
use crate::component_views::{project_component_ui_views, spec_component_view};
use crate::direct_to::{
    active_component_index_for_guidance, identity_rows, identity_rows_of, spec_active_component,
};
use crate::flight_plan::{
    details_fit, lemma_normal_uids_distinct, lemma_normalized_fits, law_normalizing_a_normal_plan_changes_nothing,
    normalized_from, plan_within_limits, FlightPlan,
};
use crate::plan_edits::{
    can_remove_component, lemma_edit_limits, removal_succeeds, removals_within_limits,
};
use crate::plan_rebuild::rebuild_within_limits;
use crate::rebuild::RebuiltRouteComponent;
use crate::route_edits::deletion_outcome;
use crate::guidance::{DirectToState, DirectToUiView, FlightPlanRowId, PlanLeg, SequencingMode};
use crate::nav::{nav_ref_label, spec_nav_ref_label};
use crate::projection::{project_display_rows, spec_display_rows};
use crate::row_guidance::{active_row_uids_in, spec_active_row_uids, text_of};
use crate::row_actions::FlightPlanControlUiView;
use crate::rows::{FlightPlanDisplayRowUiView, RouteComponentUiView};
use crate::sequencing::{
    active_leg_of, controls_are, project_flight_plan_controls, should_suspend_after_active_leg,
    spec_active_guidance_leg, spec_should_suspend_after,
};
use crate::text::{owned, push_str, string_texts};
use vstd::prelude::*;

verus! {

/// The navigation element: a summary of the active leg, and the readout
/// shown when the course deviation is off scale.
pub struct NavElementUiView {
    pub active_leg_summary: String,
    pub cdi_offscale_readout: Option<String>,
}

/// Where guidance is, as the view shows it.
pub struct GuidanceUiView {
    pub sequencing_mode: SequencingMode,
    pub active_leg_index: Option<usize>,
    pub active_from_row_uid: Option<String>,
    pub active_to_row_uid: Option<String>,
    pub active_component_index: Option<usize>,
    pub active_leg: Option<PlanLeg>,
    pub nav_element: NavElementUiView,
    pub direct_to: Option<DirectToUiView>,
    pub suspend_boundary_after_active_leg: bool,
}

/// The flight plan as the view shows it.
pub struct FlightPlanUiState {
    pub plan_id: String,
    pub plan_version: u64,
    pub display_rows: Vec<FlightPlanDisplayRowUiView>,
    pub controls: Vec<FlightPlanControlUiView>,
    pub guidance: Option<GuidanceUiView>,
}

/// The summary of a leg: where it goes from and to, with an arrow between;
/// empty without a leg.
pub open spec fn leg_summary(leg: Option<PlanLeg>) -> Seq<char> {
    match leg {
        Some(l) => spec_nav_ref_label(l.from) + " \u{2192} "@ + spec_nav_ref_label(l.to),
        None => Seq::empty(),
    }
}

/// The navigation element of plan `p`: the summary of its active leg.
pub fn project_nav_element_ui(plan: &FlightPlan) -> (r: NavElementUiView)
    requires
        details_fit(*plan),
    ensures
        r.active_leg_summary@ == leg_summary(spec_active_guidance_leg(*plan)),
        r.cdi_offscale_readout is None,
{
    let summary = match active_leg_of(plan) {
        Some(leg) => {
            let mut s = nav_ref_label(&leg.from);
            push_str(&mut s, " \u{2192} ");
            let to = nav_ref_label(&leg.to);
            push_str(&mut s, to.as_str());
            s
        },
        None => {
            proof {
                reveal_strlit("");
            }
            owned("")
        },
    };
    NavElementUiView { active_leg_summary: summary, cdi_offscale_readout: None }
}

/// A Direct-To as the view shows it.
pub open spec fn spec_direct_to_view(d: DirectToState) -> DirectToUiView {
    DirectToUiView {
        start: d.start,
        target: d.target,
        target_row_id: match d.target_row {
            crate::guidance::DirectToTargetRow::Planned { row_id } => row_id,
            crate::guidance::DirectToTargetRow::Temporary { row_id } => row_id,
        },
        on_plan_target: d.target_row is Planned,
    }
}

/// `v` shows where guidance is on the normalised plan `n`, whose display
/// rows are `rows` and whose active component is `active`.
pub open spec fn guidance_view_of(
    n: FlightPlan,
    rows: Seq<FlightPlanDisplayRowUiView>,
    active: Option<usize>,
    v: Option<GuidanceUiView>,
) -> bool {
    match n.guidance {
        None => v is None,
        Some(g) => v matches Some(gv) && {
            &&& gv.sequencing_mode == g.sequencing_mode
            &&& gv.active_leg_index == if n.resolved_legs.len() == 0 {
                None
            } else {
                Some(g.active_leg_index)
            }
            &&& (text_of(gv.active_from_row_uid), text_of(gv.active_to_row_uid))
                == spec_active_row_uids(n, n, rows)
            &&& gv.active_component_index == active
            &&& gv.active_leg == spec_active_guidance_leg(n)
            &&& gv.nav_element.active_leg_summary@ == leg_summary(spec_active_guidance_leg(n))
            &&& gv.nav_element.cdi_offscale_readout is None
            &&& gv.direct_to == match g.direct_to {
                Some(d) => Some(spec_direct_to_view(d)),
                None => None,
            }
            &&& gv.suspend_boundary_after_active_leg == spec_should_suspend_after(
                n,
                g.active_leg_index as int,
            )
        },
    }
}

/// `r` is the view of plan `p` once normalised (`n`): the display rows of
/// its components, each removable where `removable` says and the active
/// one marked; its controls; and where guidance is.
pub open spec fn ui_state_of(
    n: FlightPlan,
    removable: Seq<bool>,
    r: FlightPlanUiState,
) -> bool {
    exists|idrows: Seq<FlightPlanDisplayRowUiView>, views: Seq<RouteComponentUiView>|
        #![trigger identity_rows_of(n, idrows), spec_display_rows(n, views, r.display_rows@)]
        {
            let active = match n.guidance {
                Some(g) => spec_active_component(n, idrows, g),
                None => None,
            };
            &&& identity_rows_of(n, idrows)
            &&& views.len() == n.route_components.len()
            &&& forall|i: int|
                0 <= i < views.len() ==> spec_component_view(
                    n,
                    active,
                    removable[i],
                    i,
                    #[trigger] views[i],
                )
            &&& spec_display_rows(n, views, r.display_rows@)
            &&& r.plan_id == n.id
            &&& r.plan_version == n.version
            &&& controls_are(n, r.controls@)
            &&& guidance_view_of(n, r.display_rows@, active, r.guidance)
        }
}

/// `removable` says, for each component of the normalised plan `n`,
/// whether deleting it succeeds.
pub open spec fn removal_flags(n: FlightPlan, removable: Seq<bool>) -> bool {
    &&& removable.len() == n.route_components.len()
    &&& forall|i: int|
        0 <= i < removable.len() ==> removal_succeeds(n, i as usize, #[trigger] removable[i])
}

/// For each component of the normalised plan, whether deleting it succeeds.
fn removal_flags_of(Ghost(p): Ghost<FlightPlan>, plan: &FlightPlan) -> (r: Vec<bool>)
    requires
        plan_within_limits(p),
        removals_within_limits(p),
        normalized_from(p, *plan),
        plan.route_components.len() <= isize::MAX,
    ensures
        removal_flags(*plan, r@),
{
    proof {
        law_normalizing_a_normal_plan_changes_nothing(p, *plan);
        lemma_normalized_fits(p, *plan);
        lemma_normal_uids_distinct(
            string_texts(p.route_component_uids@),
            p.route_components.len() as nat,
            p.route_component_uid_counter as int,
        );
    }
    let n = plan.route_components.len();
    let mut flags: Vec<bool> = Vec::new();
    let mut i: usize = 0;
    while i < n
        invariant
            n == plan.route_components.len(),
            i <= n,
            flags@.len() == i,
            plan_within_limits(p),
            removals_within_limits(p),
            normalized_from(p, *plan),
            normalized_from(*plan, *plan),
            plan_within_limits(*plan),
            plan.route_components.len() <= isize::MAX,
            forall|k: int| 0 <= k < i ==> removal_succeeds(*plan, k as usize, #[trigger] flags@[k]),
        decreases n - i,
    {
        proof {
            assert forall|rs: Vec<RebuiltRouteComponent>|
                #[trigger] deletion_outcome(*plan, i, Ok(rs)) implies rebuild_within_limits(
                *plan,
                rs@,
            ) by {
                assert(normalized_from(p, *plan) && deletion_outcome(*plan, i, Ok(rs)));
                lemma_edit_limits(p, *plan, rs@);
            }
        }
        let b = can_remove_component(plan, i);
        flags.push(b);
        i = i + 1;
    }
    flags
}

/// The flight plan as the view shows it, once normalised: each component
/// removable where deleting it succeeds.
pub fn project_ui_state(plan: FlightPlan) -> (r: FlightPlanUiState)
    requires
        plan_within_limits(plan),
        plan.route_components.len() <= isize::MAX,
        removals_within_limits(plan),
    ensures
        exists|n: FlightPlan, removable: Seq<bool>|
            #[trigger] normalized_from(plan, n) && #[trigger] removal_flags(n, removable)
                && ui_state_of(n, removable, r),
{
    let ghost p = plan;
    let plan = plan.normalized();
    proof {
        crate::direct_to::lemma_normalized_uids(p, plan);
    }
    let removable_flags = removal_flags_of(Ghost(p), &plan);
    let removable = removable_flags.as_slice();
    let idrows = identity_rows(&plan);
    let active = match &plan.guidance {
        Some(g) => active_component_index_for_guidance(&plan, idrows.as_slice(), g),
        None => None,
    };
    let views = project_component_ui_views(&plan, active, removable);
    let display_rows = project_display_rows(&plan, views.as_slice());
    let (from_uid, to_uid) = active_row_uids_in(&plan, display_rows.as_slice());
    let guidance = match &plan.guidance {
        Some(g) => {
            let direct_to = match &g.direct_to {
                Some(d) => Some(
                    DirectToUiView {
                        start: d.start.duplicate(),
                        target: d.target.duplicate(),
                        target_row_id: FlightPlanRowId(d.target_row.row_id().0.clone()),
                        on_plan_target: d.target_row.is_planned(),
                    },
                ),
                None => None,
            };
            Some(
                GuidanceUiView {
                    sequencing_mode: g.sequencing_mode,
                    active_leg_index: if plan.resolved_legs.len() == 0 {
                        None
                    } else {
                        Some(g.active_leg_index)
                    },
                    active_from_row_uid: from_uid,
                    active_to_row_uid: to_uid,
                    active_component_index: active,
                    active_leg: active_leg_of(&plan),
                    nav_element: project_nav_element_ui(&plan),
                    direct_to,
                    suspend_boundary_after_active_leg: should_suspend_after_active_leg(
                        &plan,
                        g.active_leg_index,
                    ),
                },
            )
        },
        None => None,
    };
    let controls = project_flight_plan_controls(&plan);
    let r = FlightPlanUiState {
        plan_id: plan.id.clone(),
        plan_version: plan.version,
        display_rows,
        controls,
        guidance,
    };
    proof {
        let ghost act = match plan.guidance {
            Some(g) => spec_active_component(plan, idrows@, g),
            None => None,
        };
        assert(act == active);
        assert(identity_rows_of(plan, idrows@));
        assert(spec_display_rows(plan, views@, r.display_rows@));
        assert(controls_are(plan, r.controls@));
        assert(guidance_view_of(plan, r.display_rows@, act, r.guidance));
        assert(ui_state_of(plan, removable@, r));
        assert(removal_flags(plan, removable@));
    }
    r
}

} // verus!
