//! Guidance state: which leg is active, how the route is sequenced, and
//! where a Direct-To goes.
use crate::nav::NavRef;

use vstd::prelude::*;

verus! {

/// A leg between two references, on an airway or direct.
#[derive(Clone, Debug, PartialEq, Eq)]
pub struct PlanLeg {
    pub from: NavRef,
    pub to: NavRef,
    pub airway: Option<String>,
}

/// Where a resolved leg comes from.
#[derive(Clone, Copy, Debug, PartialEq, Eq, Structural)]
pub enum ResolvedLegSource {
    RouteComponent { component_index: usize },
    SyntheticBridge { from_component_index: usize, to_component_index: usize },
}

/// The part of a procedure a leg belongs to.
#[derive(Clone, Copy, Debug, PartialEq, Eq, Structural)]
pub enum ProcedureSegmentRole {
    EnrouteTransition,
    Common,
    RunwayTransition,
}

/// Whether a leg ends in a hold.
#[derive(Clone, Copy, Debug, PartialEq, Eq, Structural)]
pub enum HoldTerminalState {
    NoHold,
    HoldLeg,
}

/// Whether a leg ends in a procedure turn.
#[derive(Clone, Copy, Debug, PartialEq, Eq, Structural)]
pub enum ProcedureTurnTerminalState {
    NoProcedureTurn,
    ProcedureTurnLeg,
}

/// Whether a leg ends on the common segment of a procedure.
#[derive(Clone, Copy, Debug, PartialEq, Eq, Structural)]
pub enum CommonSegmentTerminalState {
    NotCommon,
    CommonSegment,
}

/// Whether a leg's coded fix is known to be reached.
#[derive(Clone, Copy, Debug, PartialEq, Eq, Structural)]
pub enum CodedFixSatisfaction {
    Unknown,
    AtAnchor,
}

/// How one leg hands off to the next.
#[derive(Clone, Copy, Debug, PartialEq, Eq, Structural)]
pub enum HandoffDecision {
    ContinueAsDrawn,
    ResumeAtAnchor,
    ResumeThroughAnchorKink,
    SkipStaleFix,
    YieldToFollowingCourse,
    BuildJoinGeometry,
    EnterHold,
    Invalid,
}

/// How a leg is drawn.
#[derive(Clone, Copy, Debug, PartialEq, Eq, Structural)]
pub enum LegDisplayPathStyle {
    Solid,
    Dashed,
    Vectors,
}

/// The identity of a flight-plan row.
#[derive(Clone, Debug, PartialEq, Eq, PartialOrd, Ord, Hash)]
pub struct FlightPlanRowId(pub String);

impl FlightPlanRowId {
    /// The row id as text.
    pub fn as_str(&self) -> (r: &str)
        ensures
            r@ == self.0@,
    {
        self.0.as_str()
    }
}

/// How guidance moves from leg to leg.
#[derive(Clone, Copy, Debug, PartialEq, Eq, Structural)]
pub enum SequencingMode {
    FollowPlan,
    Suspended,
    DirectTo,
}

/// Why sequencing is suspended.
#[derive(Clone, Copy, Debug, PartialEq, Eq, Structural)]
pub enum SuspendReason {
    Manual,
    Boundary,
    RouteEnd,
    DirectToComplete,
}

/// The row a Direct-To targets: a row of the plan, or a temporary row.
#[derive(Clone, Debug, PartialEq, Eq)]
pub enum DirectToTargetRow {
    Planned { row_id: FlightPlanRowId },
    Temporary { row_id: FlightPlanRowId },
}

impl DirectToTargetRow {
    /// The id of the targeted row.
    pub fn row_id(&self) -> (r: &FlightPlanRowId)
        ensures
            *r == match *self {
                DirectToTargetRow::Planned { row_id } => row_id,
                DirectToTargetRow::Temporary { row_id } => row_id,
            },
    {
        match self {
            DirectToTargetRow::Planned { row_id } => row_id,
            DirectToTargetRow::Temporary { row_id } => row_id,
        }
    }

    /// Whether the target is a row of the plan.
    pub fn is_planned(&self) -> (r: bool)
        ensures
            r == (*self is Planned),
    {
        match self {
            DirectToTargetRow::Planned { .. } => true,
            DirectToTargetRow::Temporary { .. } => false,
        }
    }
}

/// An active Direct-To.
#[derive(Clone, Debug, PartialEq, Eq)]
pub struct DirectToState {
    pub start: NavRef,
    pub target: NavRef,
    pub target_row: DirectToTargetRow,
    pub resume_row_id: Option<FlightPlanRowId>,
}

/// The guidance of a flight plan.
#[derive(Clone, Debug, PartialEq, Eq)]
pub struct GuidanceState {
    pub active_leg_index: usize,
    pub active_detail_index: Option<usize>,
    pub display_split_leg_id: Option<String>,
    pub sequencing_mode: SequencingMode,
    pub direct_to: Option<DirectToState>,
    pub suspend_reason: Option<SuspendReason>,
}

impl DirectToState {
    /// A copy of this Direct-To.
    pub fn duplicate(&self) -> (r: DirectToState)
        ensures
            r == *self,
    {
        DirectToState {
            start: self.start.duplicate(),
            target: self.target.duplicate(),
            target_row: match &self.target_row {
                DirectToTargetRow::Planned { row_id } => DirectToTargetRow::Planned {
                    row_id: FlightPlanRowId(row_id.0.clone()),
                },
                DirectToTargetRow::Temporary { row_id } => DirectToTargetRow::Temporary {
                    row_id: FlightPlanRowId(row_id.0.clone()),
                },
            },
            resume_row_id: match &self.resume_row_id {
                Some(row_id) => Some(FlightPlanRowId(row_id.0.clone())),
                None => None,
            },
        }
    }
}

/// A Direct-To as the pilot sees it.
#[derive(Clone, Debug, PartialEq, Eq)]
pub struct DirectToUiView {
    pub start: NavRef,
    pub target: NavRef,
    pub target_row_id: FlightPlanRowId,
    pub on_plan_target: bool,
}

/// One drawn element of one resolved leg, numbered across the route.
#[derive(Clone, Debug, PartialEq, Eq)]
pub struct GuidanceDetailRef {
    pub detail_index: usize,
    pub leg_index: usize,
    pub leg_id: String,
    pub element_index: usize,
}

/// Whether guidance shows an off-plan Direct-To: in Direct-To mode, towards a
/// row that is not part of the plan.
pub open spec fn spec_has_direct_to_overlay(guidance: Option<GuidanceState>) -> bool {
    match guidance {
        Some(g) => g.sequencing_mode == SequencingMode::DirectTo && match g.direct_to {
            Some(d) => d.target_row is Temporary,
            None => false,
        },
        None => false,
    }
}

/// Whether guidance shows an off-plan Direct-To.
pub fn guidance_has_direct_to_overlay(guidance: &Option<GuidanceState>) -> (r: bool)
    ensures
        r == spec_has_direct_to_overlay(*guidance),
{
    match guidance {
        Some(g) => g.sequencing_mode == SequencingMode::DirectTo && match &g.direct_to {
            Some(d) => !d.target_row.is_planned(),
            None => false,
        },
        None => false,
    }
}

} // verus!
