//! The actions that each flight-plan row offers, how they are laid out in the
//! row's menu, and why a disabled action is disabled.

use crate::route::ProcedureKind;
use crate::text::{owned, push_str};
use vstd::prelude::*;

verus! {

pub const OFF_PLAN_DIRECT_TO_EDIT_DISABLED_REASON: &'static str =
    "Restore FP before editing the flight plan.";

pub const DIRECT_TO_OWNSHIP_POSITION_DISABLED_REASON: &'static str =
    "Direct-to requires ownship position.";

pub const AIRWAY_ENDPOINT_REMOVE_DISABLED_REASON: &'static str =
    "Only airway endpoints can be removed.";

pub const WAYPOINT_REMOVE_DISABLED_REASON: &'static str =
    "This waypoint cannot be removed from the flight plan.";

pub const AIRWAY_REMOVE_DISABLED_REASON: &'static str =
    "This airway cannot be removed from the flight plan.";

pub const PROCEDURE_REMOVE_DISABLED_REASON: &'static str =
    "This procedure cannot be removed from the flight plan.";

pub const REMOVE_ALL_ABOVE_DISABLED_REASON: &'static str =
    "This row cannot be used as a Remove All Above target.";

/// Why Direct-To is unavailable, when the ownship position is unknown.
pub fn direct_to_ownship_disabled_reason(has_ownship_position: bool) -> (r: Option<&'static str>)
    ensures
        has_ownship_position ==> r is None,
        !has_ownship_position ==> r is Some && r->0@ == DIRECT_TO_OWNSHIP_POSITION_DISABLED_REASON@,
{
    if has_ownship_position {
        None
    } else {
        Some(DIRECT_TO_OWNSHIP_POSITION_DISABLED_REASON)
    }
}

/// The actions a flight-plan row can offer.
#[derive(Clone, Copy, Debug, PartialEq, Eq, Structural)]
pub enum FlightPlanRowActionId {
    ActivateLeg,
    DirectTo,
    Remove,
    RemoveAllAbove,
    InsertBefore,
    InsertAfter,
    MoveUp,
    MoveDown,
    WaypointInfo,
    Weather,
    AddAirway,
    SelectDeparture,
    SelectArrival,
    SelectApproach,
    Plates,
    ShowPlate,
    RemoveProcedure,
}

/// Who carries an action out.
#[derive(Clone, Copy, Debug, PartialEq, Eq, Structural)]
pub enum FlightPlanRowActionExecution {
    UiController,
    CoreSession,
}

/// Where an action takes the pilot.
#[derive(Clone, Debug, PartialEq, Eq)]
pub enum FlightPlanRowNavigationAction {
    OpenAirportCharts { airport_id: String },
    OpenPlateTarget { airport_id: String, target: String },
}

/// The execution of an action whose record names none.
pub fn default_row_action_execution() -> (r: FlightPlanRowActionExecution)
    ensures
        r == FlightPlanRowActionExecution::UiController,
{
    FlightPlanRowActionExecution::UiController
}

/// Whether a successful action closes the tray, where the record does not say.
pub fn default_dismiss_tray_on_success() -> (r: bool)
    ensures
        r,
{
    true
}

/// Whether a row is enabled, where the record does not say.
pub fn default_true() -> (r: bool)
    ensures
        r,
{
    true
}

/// One action in a row's menu.
#[derive(Clone, Debug, PartialEq, Eq)]
pub struct FlightPlanRowActionUiView {
    pub id: FlightPlanRowActionId,
    pub uid: String,
    pub menu_column: u8,
    pub label: String,
    pub enabled: bool,
    pub disabled_reason: Option<String>,
    pub execution: FlightPlanRowActionExecution,
    pub dismiss_tray_on_success: bool,
    pub navigation: Option<FlightPlanRowNavigationAction>,
    pub airport_info_airport_id: Option<String>,
    pub procedure_kind: Option<ProcedureKind>,
}

impl FlightPlanRowNavigationAction {
    /// A copy of this navigation.
    pub fn duplicate(&self) -> (r: FlightPlanRowNavigationAction)
        ensures
            r == *self,
    {
        match self {
            FlightPlanRowNavigationAction::OpenAirportCharts { airport_id } => {
                FlightPlanRowNavigationAction::OpenAirportCharts { airport_id: airport_id.clone() }
            },
            FlightPlanRowNavigationAction::OpenPlateTarget { airport_id, target } => {
                FlightPlanRowNavigationAction::OpenPlateTarget {
                    airport_id: airport_id.clone(),
                    target: target.clone(),
                }
            },
        }
    }
}

/// A copy of an optional string.
pub fn duplicate_text_opt(s: &Option<String>) -> (r: Option<String>)
    ensures
        r == *s,
{
    match s {
        Some(x) => Some(x.clone()),
        None => None,
    }
}

impl FlightPlanRowActionUiView {
    /// A copy of this action.
    pub fn duplicate(&self) -> (r: FlightPlanRowActionUiView)
        ensures
            r == *self,
    {
        FlightPlanRowActionUiView {
            id: self.id,
            uid: self.uid.clone(),
            menu_column: self.menu_column,
            label: self.label.clone(),
            enabled: self.enabled,
            disabled_reason: duplicate_text_opt(&self.disabled_reason),
            execution: self.execution,
            dismiss_tray_on_success: self.dismiss_tray_on_success,
            navigation: match &self.navigation {
                Some(n) => Some(n.duplicate()),
                None => None,
            },
            airport_info_airport_id: duplicate_text_opt(&self.airport_info_airport_id),
            procedure_kind: self.procedure_kind,
        }
    }
}

/// The text of an optional string.
pub open spec fn opt_text(s: Option<String>) -> Option<Seq<char>> {
    match s {
        Some(x) => Some(x@),
        None => None,
    }
}

/// The menu label of each action.
pub open spec fn spec_action_label(id: FlightPlanRowActionId) -> Seq<char> {
    match id {
        FlightPlanRowActionId::ActivateLeg => "Activate Leg"@,
        FlightPlanRowActionId::DirectTo => "Direct-To"@,
        FlightPlanRowActionId::Remove => "Remove"@,
        FlightPlanRowActionId::RemoveAllAbove => "Remove All Above"@,
        FlightPlanRowActionId::InsertBefore => "Insert Before"@,
        FlightPlanRowActionId::InsertAfter => "Insert After"@,
        FlightPlanRowActionId::MoveUp => "Move Up"@,
        FlightPlanRowActionId::MoveDown => "Move Down"@,
        FlightPlanRowActionId::WaypointInfo => "Airport Info"@,
        FlightPlanRowActionId::Weather => "WX"@,
        FlightPlanRowActionId::AddAirway => "Add Airway"@,
        FlightPlanRowActionId::SelectDeparture => "Select Departure"@,
        FlightPlanRowActionId::SelectArrival => "Select Arrival"@,
        FlightPlanRowActionId::SelectApproach => "Select Approach"@,
        FlightPlanRowActionId::Plates => "Plates"@,
        FlightPlanRowActionId::ShowPlate => "Show Plate"@,
        FlightPlanRowActionId::RemoveProcedure => "Remove Procedure"@,
    }
}

/// The label of an action.
pub fn action_label(id: &FlightPlanRowActionId) -> (r: &'static str)
    ensures
        r@ == spec_action_label(*id),
{
    match id {
        FlightPlanRowActionId::ActivateLeg => "Activate Leg",
        FlightPlanRowActionId::DirectTo => "Direct-To",
        FlightPlanRowActionId::Remove => "Remove",
        FlightPlanRowActionId::RemoveAllAbove => "Remove All Above",
        FlightPlanRowActionId::InsertBefore => "Insert Before",
        FlightPlanRowActionId::InsertAfter => "Insert After",
        FlightPlanRowActionId::MoveUp => "Move Up",
        FlightPlanRowActionId::MoveDown => "Move Down",
        FlightPlanRowActionId::WaypointInfo => "Airport Info",
        FlightPlanRowActionId::Weather => "WX",
        FlightPlanRowActionId::AddAirway => "Add Airway",
        FlightPlanRowActionId::SelectDeparture => "Select Departure",
        FlightPlanRowActionId::SelectArrival => "Select Arrival",
        FlightPlanRowActionId::SelectApproach => "Select Approach",
        FlightPlanRowActionId::Plates => "Plates",
        FlightPlanRowActionId::ShowPlate => "Show Plate",
        FlightPlanRowActionId::RemoveProcedure => "Remove Procedure",
    }
}

/// The explanation of each action when it is disabled.
pub open spec fn spec_disabled_reason_text(id: FlightPlanRowActionId) -> Seq<char> {
    match id {
        FlightPlanRowActionId::ActivateLeg => "This row is not a flyable leg."@,
        FlightPlanRowActionId::DirectTo => "This row has no Direct-To target."@,
        FlightPlanRowActionId::Remove => WAYPOINT_REMOVE_DISABLED_REASON@,
        FlightPlanRowActionId::RemoveAllAbove => REMOVE_ALL_ABOVE_DISABLED_REASON@,
        FlightPlanRowActionId::InsertBefore => "Choose a top-level route row to insert before."@,
        FlightPlanRowActionId::InsertAfter => "Choose a top-level route row to insert after."@,
        FlightPlanRowActionId::MoveUp => "This route element is already at the top."@,
        FlightPlanRowActionId::MoveDown => "This route element is already at the bottom."@,
        FlightPlanRowActionId::WaypointInfo =>
            "Airport info is available for airport waypoints only."@,
        FlightPlanRowActionId::Weather =>
            "No METAR, TAF, or airport NOTAM is available for this station."@,
        FlightPlanRowActionId::AddAirway =>
            "Airway insertion requires a named waypoint with airway connections."@,
        FlightPlanRowActionId::SelectDeparture =>
            "Departures can be selected at the flight-plan origin only."@,
        FlightPlanRowActionId::SelectArrival =>
            "Arrivals can be selected at the flight-plan destination only."@,
        FlightPlanRowActionId::SelectApproach =>
            "Approaches can be selected at the flight-plan destination only."@,
        FlightPlanRowActionId::Plates => "No airport plates are associated with this row."@,
        FlightPlanRowActionId::ShowPlate => "This procedure has no plate to show."@,
        FlightPlanRowActionId::RemoveProcedure => PROCEDURE_REMOVE_DISABLED_REASON@,
    }
}

/// The reason an action shows: none when enabled, its explanation otherwise.
pub open spec fn spec_row_action_disabled_reason(id: FlightPlanRowActionId, enabled: bool) -> Option<
    Seq<char>,
> {
    if enabled {
        None
    } else {
        Some(spec_disabled_reason_text(id))
    }
}

fn disabled_reason_text(id: &FlightPlanRowActionId) -> (r: &'static str)
    ensures
        r@ == spec_disabled_reason_text(*id),
{
    match id {
        FlightPlanRowActionId::ActivateLeg => "This row is not a flyable leg.",
        FlightPlanRowActionId::DirectTo => "This row has no Direct-To target.",
        FlightPlanRowActionId::Remove => WAYPOINT_REMOVE_DISABLED_REASON,
        FlightPlanRowActionId::RemoveAllAbove => REMOVE_ALL_ABOVE_DISABLED_REASON,
        FlightPlanRowActionId::InsertBefore => "Choose a top-level route row to insert before.",
        FlightPlanRowActionId::InsertAfter => "Choose a top-level route row to insert after.",
        FlightPlanRowActionId::MoveUp => "This route element is already at the top.",
        FlightPlanRowActionId::MoveDown => "This route element is already at the bottom.",
        FlightPlanRowActionId::WaypointInfo =>
            "Airport info is available for airport waypoints only.",
        FlightPlanRowActionId::Weather =>
            "No METAR, TAF, or airport NOTAM is available for this station.",
        FlightPlanRowActionId::AddAirway =>
            "Airway insertion requires a named waypoint with airway connections.",
        FlightPlanRowActionId::SelectDeparture =>
            "Departures can be selected at the flight-plan origin only.",
        FlightPlanRowActionId::SelectArrival =>
            "Arrivals can be selected at the flight-plan destination only.",
        FlightPlanRowActionId::SelectApproach =>
            "Approaches can be selected at the flight-plan destination only.",
        FlightPlanRowActionId::Plates => "No airport plates are associated with this row.",
        FlightPlanRowActionId::ShowPlate => "This procedure has no plate to show.",
        FlightPlanRowActionId::RemoveProcedure => PROCEDURE_REMOVE_DISABLED_REASON,
    }
}

/// The reason a disabled action is disabled.
pub fn row_action_disabled_reason(id: &FlightPlanRowActionId, enabled: bool) -> (r: Option<String>)
    ensures
        opt_text(r) == spec_row_action_disabled_reason(*id, enabled),
{
    if enabled {
        None
    } else {
        Some(owned(disabled_reason_text(id)))
    }
}

/// An action with exactly these fields, and no uid, navigation or airport.
pub open spec fn action_shape(
    a: FlightPlanRowActionUiView,
    id: FlightPlanRowActionId,
    label: Seq<char>,
    enabled: bool,
    reason: Option<Seq<char>>,
    execution: FlightPlanRowActionExecution,
    dismiss: bool,
    menu_column: u8,
    procedure_kind: Option<ProcedureKind>,
) -> bool {
    &&& a.id == id
    &&& a.uid@ == Seq::<char>::empty()
    &&& a.menu_column == menu_column
    &&& a.label@ == label
    &&& a.enabled == enabled
    &&& opt_text(a.disabled_reason) == reason
    &&& a.execution == execution
    &&& a.dismiss_tray_on_success == dismiss
    &&& a.navigation is None
    &&& a.airport_info_airport_id is None
    &&& a.procedure_kind == procedure_kind
}

/// An action with its standard label and disabled reason.
pub open spec fn standard_action(
    a: FlightPlanRowActionUiView,
    id: FlightPlanRowActionId,
    enabled: bool,
    execution: FlightPlanRowActionExecution,
    dismiss: bool,
    menu_column: u8,
    procedure_kind: Option<ProcedureKind>,
) -> bool {
    action_shape(
        a,
        id,
        spec_action_label(id),
        enabled,
        spec_row_action_disabled_reason(id, enabled),
        execution,
        dismiss,
        menu_column,
        procedure_kind,
    )
}

/// An action that the UI carries out.
pub open spec fn ui_action(a: FlightPlanRowActionUiView, id: FlightPlanRowActionId, enabled: bool) -> bool {
    standard_action(a, id, enabled, FlightPlanRowActionExecution::UiController, true, 0, None)
}

/// An action that the core session carries out.
pub open spec fn session_action(
    a: FlightPlanRowActionUiView,
    id: FlightPlanRowActionId,
    enabled: bool,
) -> bool {
    standard_action(a, id, enabled, FlightPlanRowActionExecution::CoreSession, true, 0, None)
}

/// A reordering action: carried out by the core session, keeps the tray open.
pub open spec fn reorder_action(
    a: FlightPlanRowActionUiView,
    id: FlightPlanRowActionId,
    enabled: bool,
) -> bool {
    standard_action(a, id, enabled, FlightPlanRowActionExecution::CoreSession, false, 0, None)
}

/// A session action with its own explanation when disabled.
pub open spec fn session_action_because(
    a: FlightPlanRowActionUiView,
    id: FlightPlanRowActionId,
    enabled: bool,
    reason: Seq<char>,
) -> bool {
    action_shape(
        a,
        id,
        spec_action_label(id),
        enabled,
        if enabled {
            None
        } else {
            Some(reason)
        },
        FlightPlanRowActionExecution::CoreSession,
        true,
        0,
        None,
    )
}

/// An action that the UI controller carries out.
pub fn action(id: FlightPlanRowActionId, enabled: bool) -> (r: FlightPlanRowActionUiView)
    ensures
        ui_action(r, id, enabled),
{
    let disabled_reason = row_action_disabled_reason(&id, enabled);
    FlightPlanRowActionUiView {
        label: owned(action_label(&id)),
        uid: String::new(),
        menu_column: 0,
        id,
        enabled,
        disabled_reason,
        execution: FlightPlanRowActionExecution::UiController,
        dismiss_tray_on_success: true,
        navigation: None,
        airport_info_airport_id: None,
        procedure_kind: None,
    }
}

/// A UI action placed in a given menu column.
pub fn action_in_menu_column(id: FlightPlanRowActionId, enabled: bool, menu_column: u8) -> (r:
    FlightPlanRowActionUiView)
    ensures
        standard_action(
            r,
            id,
            enabled,
            FlightPlanRowActionExecution::UiController,
            true,
            menu_column,
            None,
        ),
{
    let mut a = action(id, enabled);
    a.menu_column = menu_column;
    a
}

/// An action that the core session carries out.
pub fn core_session_action(id: FlightPlanRowActionId, enabled: bool) -> (r:
    FlightPlanRowActionUiView)
    ensures
        session_action(r, id, enabled),
{
    let disabled_reason = row_action_disabled_reason(&id, enabled);
    FlightPlanRowActionUiView {
        label: owned(action_label(&id)),
        uid: String::new(),
        menu_column: 0,
        id,
        enabled,
        disabled_reason,
        execution: FlightPlanRowActionExecution::CoreSession,
        dismiss_tray_on_success: true,
        navigation: None,
        airport_info_airport_id: None,
        procedure_kind: None,
    }
}

/// A core-session action that explains itself with `disabled_reason`.
pub fn core_session_action_with_disabled_reason(
    id: FlightPlanRowActionId,
    enabled: bool,
    disabled_reason: &'static str,
) -> (r: FlightPlanRowActionUiView)
    ensures
        session_action_because(r, id, enabled, disabled_reason@),
{
    let mut a = core_session_action(id, enabled);
    if !enabled {
        a.disabled_reason = Some(owned(disabled_reason));
    }
    a
}

/// A UI action that selects a procedure of a kind.
pub fn procedure_action(id: FlightPlanRowActionId, procedure_kind: ProcedureKind, enabled: bool) -> (r:
    FlightPlanRowActionUiView)
    ensures
        standard_action(
            r,
            id,
            enabled,
            FlightPlanRowActionExecution::UiController,
            true,
            0,
            Some(procedure_kind),
        ),
{
    let mut a = action(id, enabled);
    a.procedure_kind = Some(procedure_kind);
    a
}

/// A reordering action.
pub fn move_action(id: FlightPlanRowActionId, enabled: bool) -> (r: FlightPlanRowActionUiView)
    ensures
        reorder_action(r, id, enabled),
{
    let disabled_reason = row_action_disabled_reason(&id, enabled);
    FlightPlanRowActionUiView {
        label: owned(action_label(&id)),
        uid: String::new(),
        menu_column: 0,
        id,
        enabled,
        disabled_reason,
        execution: FlightPlanRowActionExecution::CoreSession,
        dismiss_tray_on_success: false,
        navigation: None,
        airport_info_airport_id: None,
        procedure_kind: None,
    }
}

/// `b` is `a` except perhaps in enablement and disabled reason.
pub open spec fn same_but_enablement(a: FlightPlanRowActionUiView, b: FlightPlanRowActionUiView) -> bool {
    &&& b.id == a.id
    &&& b.uid == a.uid
    &&& b.menu_column == a.menu_column
    &&& b.label == a.label
    &&& b.execution == a.execution
    &&& b.dismiss_tray_on_success == a.dismiss_tray_on_success
    &&& b.navigation == a.navigation
    &&& b.airport_info_airport_id == a.airport_info_airport_id
    &&& b.procedure_kind == a.procedure_kind
}

/// The reason an action has after its enablement is set: none when enabled;
/// when disabled, the reason it had, or the standard one where it had none.
pub open spec fn reason_after_enablement(
    before: FlightPlanRowActionUiView,
    enabled: bool,
    after: Option<String>,
) -> bool {
    if enabled {
        after is None
    } else if before.disabled_reason is Some {
        after == before.disabled_reason
    } else {
        opt_text(after) == Some(spec_disabled_reason_text(before.id))
    }
}

/// Enables or disables an action, keeping its reason consistent.
pub fn set_flight_plan_row_action_enabled(action: &mut FlightPlanRowActionUiView, enabled: bool)
    ensures
        final(action).enabled == enabled,
        same_but_enablement(*old(action), *final(action)),
        reason_after_enablement(*old(action), enabled, final(action).disabled_reason),
{
    action.enabled = enabled;
    if enabled {
        action.disabled_reason = None;
    } else if action.disabled_reason.is_none() {
        action.disabled_reason = row_action_disabled_reason(&action.id, false);
    }
}

/// The variant name of an action, as `{:?}` writes it.
pub open spec fn spec_action_debug_name(id: FlightPlanRowActionId) -> Seq<char> {
    match id {
        FlightPlanRowActionId::ActivateLeg => "ActivateLeg"@,
        FlightPlanRowActionId::DirectTo => "DirectTo"@,
        FlightPlanRowActionId::Remove => "Remove"@,
        FlightPlanRowActionId::RemoveAllAbove => "RemoveAllAbove"@,
        FlightPlanRowActionId::InsertBefore => "InsertBefore"@,
        FlightPlanRowActionId::InsertAfter => "InsertAfter"@,
        FlightPlanRowActionId::MoveUp => "MoveUp"@,
        FlightPlanRowActionId::MoveDown => "MoveDown"@,
        FlightPlanRowActionId::WaypointInfo => "WaypointInfo"@,
        FlightPlanRowActionId::Weather => "Weather"@,
        FlightPlanRowActionId::AddAirway => "AddAirway"@,
        FlightPlanRowActionId::SelectDeparture => "SelectDeparture"@,
        FlightPlanRowActionId::SelectArrival => "SelectArrival"@,
        FlightPlanRowActionId::SelectApproach => "SelectApproach"@,
        FlightPlanRowActionId::Plates => "Plates"@,
        FlightPlanRowActionId::ShowPlate => "ShowPlate"@,
        FlightPlanRowActionId::RemoveProcedure => "RemoveProcedure"@,
    }
}

fn action_debug_name(id: &FlightPlanRowActionId) -> (r: &'static str)
    ensures
        r@ == spec_action_debug_name(*id),
{
    match id {
        FlightPlanRowActionId::ActivateLeg => "ActivateLeg",
        FlightPlanRowActionId::DirectTo => "DirectTo",
        FlightPlanRowActionId::Remove => "Remove",
        FlightPlanRowActionId::RemoveAllAbove => "RemoveAllAbove",
        FlightPlanRowActionId::InsertBefore => "InsertBefore",
        FlightPlanRowActionId::InsertAfter => "InsertAfter",
        FlightPlanRowActionId::MoveUp => "MoveUp",
        FlightPlanRowActionId::MoveDown => "MoveDown",
        FlightPlanRowActionId::WaypointInfo => "WaypointInfo",
        FlightPlanRowActionId::Weather => "Weather",
        FlightPlanRowActionId::AddAirway => "AddAirway",
        FlightPlanRowActionId::SelectDeparture => "SelectDeparture",
        FlightPlanRowActionId::SelectArrival => "SelectArrival",
        FlightPlanRowActionId::SelectApproach => "SelectApproach",
        FlightPlanRowActionId::Plates => "Plates",
        FlightPlanRowActionId::ShowPlate => "ShowPlate",
        FlightPlanRowActionId::RemoveProcedure => "RemoveProcedure",
    }
}

/// The uid of an action within a row: `{row}:action:{Id}`.
pub open spec fn spec_action_uid(row_uid: Seq<char>, id: FlightPlanRowActionId) -> Seq<char> {
    row_uid + ":action:"@ + spec_action_debug_name(id)
}

/// `b` is `a` with its uid filled in when it had none.
pub open spec fn uid_assigned(row_uid: Seq<char>, a: FlightPlanRowActionUiView, b: FlightPlanRowActionUiView) -> bool {
    &&& b.id == a.id
    &&& b.menu_column == a.menu_column
    &&& b.label == a.label
    &&& b.enabled == a.enabled
    &&& b.disabled_reason == a.disabled_reason
    &&& b.execution == a.execution
    &&& b.dismiss_tray_on_success == a.dismiss_tray_on_success
    &&& b.navigation == a.navigation
    &&& b.airport_info_airport_id == a.airport_info_airport_id
    &&& b.procedure_kind == a.procedure_kind
    &&& if a.uid@.len() == 0 {
        b.uid@ == spec_action_uid(row_uid, a.id)
    } else {
        b.uid == a.uid
    }
}

/// Gives every action without a uid the uid of its place in the row.
pub fn assign_action_uids(row_uid: &str, actions: Vec<FlightPlanRowActionUiView>) -> (r: Vec<
    FlightPlanRowActionUiView,
>)
    ensures
        r@.len() == actions@.len(),
        forall|i: int| 0 <= i < r@.len() ==> uid_assigned(row_uid@, actions@[i], #[trigger] r@[i]),
{
    let mut r: Vec<FlightPlanRowActionUiView> = Vec::new();
    let mut i: usize = 0;
    while i < actions.len()
        invariant
            i <= actions@.len(),
            r@.len() == i,
            forall|k: int| 0 <= k < i ==> uid_assigned(row_uid@, actions@[k], #[trigger] r@[k]),
        decreases actions@.len() - i,
    {
        let mut a = actions[i].duplicate();
        if a.uid.unicode_len() == 0 {
            let mut uid = owned(row_uid);
            push_str(&mut uid, ":action:");
            push_str(&mut uid, action_debug_name(&a.id));
            a.uid = uid;
        }
        r.push(a);
        i = i + 1;
    }
    r
}

/// Whether an action fills a slot of the menu: its own slot, and a
/// procedure removal fills the Remove slot.
pub open spec fn spec_matches_slot(action_id: FlightPlanRowActionId, slot_id: FlightPlanRowActionId) -> bool {
    action_id == slot_id || (slot_id == FlightPlanRowActionId::Remove && action_id
        == FlightPlanRowActionId::RemoveProcedure)
}

/// Whether an action fills a menu slot.
pub fn action_matches_matrix_slot(
    action_id: &FlightPlanRowActionId,
    slot_id: &FlightPlanRowActionId,
) -> (r: bool)
    ensures
        r == spec_matches_slot(*action_id, *slot_id),
{
    *action_id == *slot_id || (*slot_id == FlightPlanRowActionId::Remove && *action_id
        == FlightPlanRowActionId::RemoveProcedure)
}

/// The menu layout: rows of slots, in order.
pub open spec fn spec_matrix_layout() -> Seq<Seq<FlightPlanRowActionId>> {
    seq![
        seq![FlightPlanRowActionId::ActivateLeg, FlightPlanRowActionId::DirectTo],
        seq![FlightPlanRowActionId::InsertBefore, FlightPlanRowActionId::MoveUp],
        seq![FlightPlanRowActionId::InsertAfter, FlightPlanRowActionId::MoveDown],
        seq![FlightPlanRowActionId::Remove, FlightPlanRowActionId::RemoveAllAbove],
        seq![FlightPlanRowActionId::SelectDeparture, FlightPlanRowActionId::AddAirway],
        seq![FlightPlanRowActionId::SelectArrival, FlightPlanRowActionId::SelectApproach],
        seq![FlightPlanRowActionId::WaypointInfo, FlightPlanRowActionId::Plates],
        seq![FlightPlanRowActionId::Weather],
    ]
}

/// The index of the first action that fills a slot.
pub open spec fn first_slot_match(actions: Seq<FlightPlanRowActionUiView>, slot: FlightPlanRowActionId) -> Option<int>
    decreases actions.len(),
{
    if actions.len() == 0 {
        None
    } else {
        match first_slot_match(actions.drop_last(), slot) {
            Some(i) => Some(i),
            None => if spec_matches_slot(actions.last().id, slot) {
                Some(actions.len() - 1)
            } else {
                None
            },
        }
    }
}

/// `a` moved to menu column `column`.
pub open spec fn in_column(a: FlightPlanRowActionUiView, column: int) -> FlightPlanRowActionUiView {
    FlightPlanRowActionUiView { menu_column: column as u8, ..a }
}

/// The actions that fill a layout row, each in the column of its slot.
pub open spec fn placed_row(actions: Seq<FlightPlanRowActionUiView>, slots: Seq<FlightPlanRowActionId>) -> Seq<FlightPlanRowActionUiView>
    decreases slots.len(),
{
    if slots.len() == 0 {
        Seq::empty()
    } else {
        let before = placed_row(actions, slots.drop_last());
        match first_slot_match(actions, slots.last()) {
            Some(i) => before.push(in_column(actions[i], slots.len() - 1)),
            None => before,
        }
    }
}

/// The placed layout rows that hold at least one action.
pub open spec fn placed_rows(actions: Seq<FlightPlanRowActionUiView>, layout: Seq<Seq<FlightPlanRowActionId>>) -> Seq<Seq<FlightPlanRowActionUiView>>
    decreases layout.len(),
{
    if layout.len() == 0 {
        Seq::empty()
    } else {
        let before = placed_rows(actions, layout.drop_last());
        let row = placed_row(actions, layout.last());
        if row.len() > 0 {
            before.push(row)
        } else {
            before
        }
    }
}

/// The ids of the placed actions, row by row.
pub open spec fn placed_ids(rows: Seq<Seq<FlightPlanRowActionUiView>>) -> Seq<FlightPlanRowActionId>
    decreases rows.len(),
{
    if rows.len() == 0 {
        Seq::empty()
    } else {
        placed_ids(rows.drop_last()) + rows.last().map_values(|a: FlightPlanRowActionUiView| a.id)
    }
}

/// One row for each action whose id was not placed, in order.
pub open spec fn leftover_rows(actions: Seq<FlightPlanRowActionUiView>, used: Seq<FlightPlanRowActionId>) -> Seq<Seq<FlightPlanRowActionUiView>>
    decreases actions.len(),
{
    if actions.len() == 0 {
        Seq::empty()
    } else {
        let before = leftover_rows(actions.drop_last(), used);
        if used.contains(actions.last().id) {
            before
        } else {
            before.push(seq![actions.last()])
        }
    }
}

/// The action matrix of a row: the layout rows that hold an action, then a
/// row of its own for each action that no layout slot took.
pub open spec fn spec_action_matrix(actions: Seq<FlightPlanRowActionUiView>) -> Seq<Seq<FlightPlanRowActionUiView>> {
    let rows = placed_rows(actions, spec_matrix_layout());
    rows + leftover_rows(actions, placed_ids(rows))
}

/// The rows of a matrix as sequences.
pub open spec fn matrix_view(m: Seq<Vec<FlightPlanRowActionUiView>>) -> Seq<Seq<FlightPlanRowActionUiView>> {
    m.map_values(|row: Vec<FlightPlanRowActionUiView>| row@)
}

fn matrix_layout() -> (r: Vec<Vec<FlightPlanRowActionId>>)
    ensures
        r@.len() == spec_matrix_layout().len(),
        forall|i: int| 0 <= i < r@.len() ==> #[trigger] r@[i]@ == spec_matrix_layout()[i],
{
    let r = vec![
        vec![FlightPlanRowActionId::ActivateLeg, FlightPlanRowActionId::DirectTo],
        vec![FlightPlanRowActionId::InsertBefore, FlightPlanRowActionId::MoveUp],
        vec![FlightPlanRowActionId::InsertAfter, FlightPlanRowActionId::MoveDown],
        vec![FlightPlanRowActionId::Remove, FlightPlanRowActionId::RemoveAllAbove],
        vec![FlightPlanRowActionId::SelectDeparture, FlightPlanRowActionId::AddAirway],
        vec![FlightPlanRowActionId::SelectArrival, FlightPlanRowActionId::SelectApproach],
        vec![FlightPlanRowActionId::WaypointInfo, FlightPlanRowActionId::Plates],
        vec![FlightPlanRowActionId::Weather],
    ];
    assert(r@[0]@ =~= spec_matrix_layout()[0]);
    assert(r@[1]@ =~= spec_matrix_layout()[1]);
    assert(r@[2]@ =~= spec_matrix_layout()[2]);
    assert(r@[3]@ =~= spec_matrix_layout()[3]);
    assert(r@[4]@ =~= spec_matrix_layout()[4]);
    assert(r@[5]@ =~= spec_matrix_layout()[5]);
    assert(r@[6]@ =~= spec_matrix_layout()[6]);
    assert(r@[7]@ =~= spec_matrix_layout()[7]);
    r
}

fn find_slot_match(actions: &[FlightPlanRowActionUiView], slot: FlightPlanRowActionId) -> (r: Option<
    usize,
>)
    ensures
        match r {
            Some(i) => i < actions@.len() && first_slot_match(actions@, slot) == Some(i as int),
            None => first_slot_match(actions@, slot) is None,
        },
{
    let mut i: usize = 0;
    while i < actions.len()
        invariant
            i <= actions@.len(),
            first_slot_match(actions@.take(i as int), slot) is None,
        decreases actions@.len() - i,
    {
        assert(actions@.take(i + 1).drop_last() =~= actions@.take(i as int));
        if action_matches_matrix_slot(&actions[i].id, &slot) {
            proof {
                lemma_first_match_prefix(actions@, slot, i as int + 1);
            }
            return Some(i);
        }
        i = i + 1;
    }
    assert(actions@.take(actions@.len() as int) =~= actions@);
    None
}

proof fn lemma_first_match_prefix(actions: Seq<FlightPlanRowActionUiView>, slot: FlightPlanRowActionId, k: int)
    requires
        0 <= k <= actions.len(),
        first_slot_match(actions.take(k), slot) is Some,
    ensures
        first_slot_match(actions, slot) == first_slot_match(actions.take(k), slot),
    decreases actions.len() - k,
{
    if k < actions.len() {
        assert(actions.take(k + 1).drop_last() =~= actions.take(k));
        lemma_first_match_prefix(actions, slot, k + 1);
    } else {
        assert(actions.take(k) =~= actions);
    }
}

/// Lays a row's actions out in the menu matrix.
pub fn action_matrix_from_actions(actions: &[FlightPlanRowActionUiView]) -> (r: Vec<
    Vec<FlightPlanRowActionUiView>,
>)
    ensures
        matrix_view(r@) == spec_action_matrix(actions@),
{
    let layout = matrix_layout();
    let ghost lay = spec_matrix_layout();
    let mut used: Vec<FlightPlanRowActionId> = Vec::new();
    let mut matrix: Vec<Vec<FlightPlanRowActionUiView>> = Vec::new();
    let mut row_index: usize = 0;
    while row_index < layout.len()
        invariant
            layout@.len() == lay.len(),
            forall|i: int| 0 <= i < layout@.len() ==> #[trigger] layout@[i]@ == lay[i],
            lay == spec_matrix_layout(),
            row_index <= layout@.len(),
            matrix_view(matrix@) == placed_rows(actions@, lay.take(row_index as int)),
            used@ == placed_ids(matrix_view(matrix@)),
        decreases layout@.len() - row_index,
    {
        let slots = &layout[row_index];
        let mut row: Vec<FlightPlanRowActionUiView> = Vec::new();
        let mut column: usize = 0;
        let ghost used_before = used@;
        while column < slots.len()
            invariant
                slots@ == lay[row_index as int],
                column <= slots@.len(),
                slots@.len() <= 2,
                row@ == placed_row(actions@, slots@.take(column as int)),
                used@ == used_before + row@.map_values(|a: FlightPlanRowActionUiView| a.id),
            decreases slots@.len() - column,
        {
            assert(slots@.take(column + 1).drop_last() =~= slots@.take(column as int));
            match find_slot_match(actions, slots[column]) {
                Some(i) => {
                    let mut a = actions[i].duplicate();
                    a.menu_column = column as u8;
                    used.push(a.id);
                    row.push(a);
                    assert(used@ =~= used_before + row@.map_values(|a: FlightPlanRowActionUiView| a.id));
                },
                None => {},
            }
            column = column + 1;
        }
        assert(slots@.take(slots@.len() as int) =~= slots@);
        assert(lay.take(row_index + 1).drop_last() =~= lay.take(row_index as int));
        if row.len() > 0 {
            matrix.push(row);
            assert(matrix_view(matrix@) =~= matrix_view(matrix@).drop_last().push(row@));
            assert(matrix_view(matrix@).drop_last() =~= placed_rows(actions@, lay.take(row_index as int)));
        } else {
            assert(used@ =~= used_before);
        }
        row_index = row_index + 1;
    }
    assert(lay.take(lay.len() as int) =~= lay);
    let ghost placed = matrix_view(matrix@);
    let mut i: usize = 0;
    while i < actions.len()
        invariant
            i <= actions@.len(),
            placed == placed_rows(actions@, spec_matrix_layout()),
            used@ == placed_ids(placed),
            matrix_view(matrix@) == placed + leftover_rows(actions@.take(i as int), used@),
        decreases actions@.len() - i,
    {
        assert(actions@.take(i + 1).drop_last() =~= actions@.take(i as int));
        let mut seen = false;
        let mut k: usize = 0;
        while k < used.len()
            invariant
                k <= used@.len(),
                i < actions@.len(),
                seen == used@.take(k as int).contains(actions@[i as int].id),
            decreases used@.len() - k,
        {
            let ghost x = actions@[i as int].id;
            assert(used@.take(k + 1) =~= used@.take(k as int).push(used@[k as int]));
            if used[k] == actions[i].id {
                seen = true;
                assert(used@.take(k + 1)[k as int] == x);
            } else {
                assert(used@.take(k + 1).contains(x) ==> used@.take(k as int).contains(x)) by {
                    if used@.take(k + 1).contains(x) {
                        let j = choose|j: int| 0 <= j < k + 1 && #[trigger] used@.take(k + 1)[j] == x;
                        assert(j < k);
                        assert(used@.take(k as int)[j] == x);
                    }
                }
                assert(used@.take(k as int).contains(x) ==> used@.take(k + 1).contains(x)) by {
                    if used@.take(k as int).contains(x) {
                        let j = choose|j: int| 0 <= j < k && #[trigger] used@.take(k as int)[j] == x;
                        assert(used@.take(k + 1)[j] == x);
                    }
                }
            }
            k = k + 1;
        }
        assert(used@.take(used@.len() as int) =~= used@);
        if !seen {
            let mut single: Vec<FlightPlanRowActionUiView> = Vec::new();
            single.push(actions[i].duplicate());
            matrix.push(single);
            assert(single@ =~= seq![actions@[i as int]]);
            assert(matrix_view(matrix@) =~= (placed + leftover_rows(actions@.take(i as int), used@)).push(single@));
        }
        i = i + 1;
    }
    assert(actions@.take(actions@.len() as int) =~= actions@);
    matrix
}

/// Every action of a matrix, row by row.
pub open spec fn flatten_actions(m: Seq<Seq<FlightPlanRowActionUiView>>) -> Seq<FlightPlanRowActionUiView>
    decreases m.len(),
{
    if m.len() == 0 {
        Seq::empty()
    } else {
        flatten_actions(m.drop_last()) + m.last()
    }
}

/// A control of the flight plan as a whole.
#[derive(Clone, Copy, Debug, PartialEq, Eq, Structural)]
pub enum FlightPlanControlId {
    ActivateNextLeg,
    Redo,
    RestoreDirectTo,
    SequenceActiveLeg,
    StopNavigation,
    SuspendSequencing,
    Undo,
    UnsuspendSequencing,
}

/// A flight-plan control as the pilot sees it.
#[derive(Clone, Debug, PartialEq, Eq)]
pub struct FlightPlanControlUiView {
    pub id: FlightPlanControlId,
    pub label: String,
    pub enabled: bool,
    pub disabled_reason: Option<String>,
}

/// A control with its label, enablement, and its reason when disabled.
pub fn flight_plan_control(
    id: FlightPlanControlId,
    label: &str,
    enabled: bool,
    disabled_reason: &'static str,
) -> (r: FlightPlanControlUiView)
    ensures
        r.id == id,
        r.label@ == label@,
        r.enabled == enabled,
        opt_text(r.disabled_reason) == if enabled {
            None
        } else {
            Some(disabled_reason@)
        },
{
    FlightPlanControlUiView {
        id,
        label: owned(label),
        enabled,
        disabled_reason: if enabled {
            None
        } else {
            Some(owned(disabled_reason))
        },
    }
}

} // verus!

verus! {

/// `e` is one of `actions`, moved at most to another menu column.
pub open spec fn entry_from(actions: Seq<FlightPlanRowActionUiView>, e: FlightPlanRowActionUiView) -> bool {
    exists|i: int| 0 <= i < actions.len() && e == in_column(#[trigger] actions[i], e.menu_column as int)
}

proof fn lemma_first_slot_match_in(actions: Seq<FlightPlanRowActionUiView>, slot: FlightPlanRowActionId)
    ensures
        first_slot_match(actions, slot) matches Some(i) ==> 0 <= i < actions.len(),
    decreases actions.len(),
{
    if actions.len() > 0 {
        lemma_first_slot_match_in(actions.drop_last(), slot);
    }
}

proof fn lemma_placed_row_from(actions: Seq<FlightPlanRowActionUiView>, slots: Seq<FlightPlanRowActionId>)
    ensures
        forall|k: int|
            0 <= k < placed_row(actions, slots).len() ==> entry_from(
                actions,
                #[trigger] placed_row(actions, slots)[k],
            ),
    decreases slots.len(),
{
    if slots.len() > 0 {
        lemma_placed_row_from(actions, slots.drop_last());
        lemma_first_slot_match_in(actions, slots.last());
        let before = placed_row(actions, slots.drop_last());
        match first_slot_match(actions, slots.last()) {
            Some(i) => {
                let e = in_column(actions[i], slots.len() - 1);
                assert(e == in_column(actions[i], e.menu_column as int));
                assert forall|k: int| 0 <= k < before.push(e).len() implies entry_from(
                    actions,
                    #[trigger] before.push(e)[k],
                ) by {
                    if k < before.len() {
                        assert(before.push(e)[k] == before[k]);
                    }
                }
            },
            None => {},
        }
    }
}

proof fn lemma_placed_rows_from(actions: Seq<FlightPlanRowActionUiView>, layout: Seq<Seq<FlightPlanRowActionId>>)
    ensures
        forall|a: int|
            0 <= a < placed_rows(actions, layout).len() ==> (#[trigger] placed_rows(actions, layout)[a]).len()
                > 0 && forall|b: int|
                0 <= b < placed_rows(actions, layout)[a].len() ==> entry_from(
                    actions,
                    #[trigger] placed_rows(actions, layout)[a][b],
                ),
    decreases layout.len(),
{
    if layout.len() > 0 {
        lemma_placed_rows_from(actions, layout.drop_last());
        lemma_placed_row_from(actions, layout.last());
        let before = placed_rows(actions, layout.drop_last());
        let row = placed_row(actions, layout.last());
        let all = placed_rows(actions, layout);
        assert forall|a: int| 0 <= a < all.len() implies (#[trigger] all[a]).len() > 0 && forall|b: int|
            0 <= b < all[a].len() ==> entry_from(actions, #[trigger] all[a][b]) by {
            if a < before.len() {
                assert(all[a] == before[a]);
            } else {
                assert(all[a] == row);
            }
        }
    }
}

proof fn lemma_placed_ids_found(rows: Seq<Seq<FlightPlanRowActionUiView>>, x: FlightPlanRowActionId)
    requires
        placed_ids(rows).contains(x),
    ensures
        exists|a: int, b: int| 0 <= a < rows.len() && 0 <= b < rows[a].len() && (#[trigger] rows[a][b]).id == x,
    decreases rows.len(),
{
    let before = placed_ids(rows.drop_last());
    let last = rows.last().map_values(|e: FlightPlanRowActionUiView| e.id);
    let k = choose|k: int| 0 <= k < placed_ids(rows).len() && placed_ids(rows)[k] == x;
    if k < before.len() {
        assert(before[k] == x);
        lemma_placed_ids_found(rows.drop_last(), x);
        let (a, b) = choose|a: int, b: int|
            0 <= a < rows.drop_last().len() && 0 <= b < rows.drop_last()[a].len() && (#[trigger] rows.drop_last()[a][b]).id == x;
        assert(rows[a][b] == rows.drop_last()[a][b]);
    } else {
        let b = k - before.len();
        assert(last[b] == x);
        assert(rows[rows.len() - 1][b].id == x);
    }
}

proof fn lemma_leftover_rows(actions: Seq<FlightPlanRowActionUiView>, used: Seq<FlightPlanRowActionId>)
    ensures
        forall|a: int|
            0 <= a < leftover_rows(actions, used).len() ==> (#[trigger] leftover_rows(actions, used)[a]).len() == 1
                && entry_from(actions, leftover_rows(actions, used)[a][0]),
        forall|i: int|
            0 <= i < actions.len() && !used.contains(#[trigger] actions[i].id) ==> exists|a: int|
                0 <= a < leftover_rows(actions, used).len() && (#[trigger] leftover_rows(actions, used)[a])[0]
                    == actions[i],
    decreases actions.len(),
{
    if actions.len() > 0 {
        let d = actions.drop_last();
        lemma_leftover_rows(d, used);
        let before = leftover_rows(d, used);
        let all = leftover_rows(actions, used);
        assert forall|a: int| 0 <= a < all.len() implies (#[trigger] all[a]).len() == 1 && entry_from(
            actions,
            all[a][0],
        ) by {
            if a < before.len() {
                assert(all[a] == before[a]);
                let e = before[a][0];
                let i = choose|i: int| 0 <= i < d.len() && e == in_column(#[trigger] d[i], e.menu_column as int);
                assert(actions[i] == d[i]);
            } else {
                let e = actions.last();
                assert(all[a] == seq![e]);
                assert(e == in_column(actions[actions.len() - 1], e.menu_column as int));
            }
        }
        assert forall|i: int| 0 <= i < actions.len() && !used.contains(#[trigger] actions[i].id) implies exists|a: int|
            0 <= a < all.len() && (#[trigger] all[a])[0] == actions[i] by {
            if i < d.len() {
                assert(d[i] == actions[i]);
                let a = choose|a: int| 0 <= a < before.len() && (#[trigger] before[a])[0] == d[i];
                assert(all[a] == before[a]);
            } else {
                assert(all[all.len() - 1] == seq![actions.last()]);
            }
        }
    }
}

/// The action matrix of a row holds the row's actions and nothing else: no
/// layout row is empty, each entry is one of the actions (moved at most to
/// the column of its slot), each action that no slot takes has a row of its
/// own, and every action shows up in it.
pub proof fn law_action_matrix_holds_the_actions(actions: Seq<FlightPlanRowActionUiView>)
    ensures
        forall|a: int|
            0 <= a < spec_action_matrix(actions).len() ==> (#[trigger] spec_action_matrix(actions)[a]).len() > 0
                && forall|b: int|
                0 <= b < spec_action_matrix(actions)[a].len() ==> entry_from(
                    actions,
                    #[trigger] spec_action_matrix(actions)[a][b],
                ),
        forall|i: int|
            0 <= i < actions.len() ==> exists|a: int, b: int|
                0 <= a < spec_action_matrix(actions).len() && 0 <= b < spec_action_matrix(actions)[a].len()
                    && (#[trigger] spec_action_matrix(actions)[a][b]).id == (#[trigger] actions[i]).id,
{
    let rows = placed_rows(actions, spec_matrix_layout());
    let used = placed_ids(rows);
    let left = leftover_rows(actions, used);
    let m = spec_action_matrix(actions);
    lemma_placed_rows_from(actions, spec_matrix_layout());
    lemma_leftover_rows(actions, used);
    assert(m == rows + left);
    assert forall|a: int| 0 <= a < m.len() implies (#[trigger] m[a]).len() > 0 && forall|b: int|
        0 <= b < m[a].len() ==> entry_from(actions, #[trigger] m[a][b]) by {
        if a < rows.len() {
            assert(m[a] == rows[a]);
        } else {
            assert(m[a] == left[a - rows.len()]);
        }
    }
    assert forall|i: int| 0 <= i < actions.len() implies exists|a: int, b: int|
        0 <= a < m.len() && 0 <= b < m[a].len() && (#[trigger] m[a][b]).id == (#[trigger] actions[i]).id by {
        if used.contains(actions[i].id) {
            lemma_placed_ids_found(rows, actions[i].id);
            let (a, b) = choose|a: int, b: int|
                0 <= a < rows.len() && 0 <= b < rows[a].len() && (#[trigger] rows[a][b]).id == actions[i].id;
            assert(m[a] == rows[a]);
        } else {
            let a = choose|a: int| 0 <= a < left.len() && (#[trigger] left[a])[0] == actions[i];
            assert(m[rows.len() + a] == left[a]);
            assert(m[rows.len() + a][0] == actions[i]);
        }
    }
}

} // verus!

verus! {

/// `e` sits in its menu row in the column of a slot of `slots` that it fills.
pub open spec fn fills_slot_in_column(e: FlightPlanRowActionUiView, slots: Seq<FlightPlanRowActionId>) -> bool {
    (e.menu_column as int) < slots.len() && spec_matches_slot(e.id, slots[e.menu_column as int])
}

proof fn lemma_first_slot_match_fills(actions: Seq<FlightPlanRowActionUiView>, slot: FlightPlanRowActionId)
    ensures
        first_slot_match(actions, slot) matches Some(i) ==> 0 <= i < actions.len() && spec_matches_slot(
            actions[i].id,
            slot,
        ),
    decreases actions.len(),
{
    if actions.len() > 0 {
        lemma_first_slot_match_fills(actions.drop_last(), slot);
    }
}

proof fn lemma_placed_row_columns(actions: Seq<FlightPlanRowActionUiView>, slots: Seq<FlightPlanRowActionId>)
    requires
        slots.len() <= 2,
    ensures
        forall|k: int|
            0 <= k < placed_row(actions, slots).len() ==> fills_slot_in_column(
                #[trigger] placed_row(actions, slots)[k],
                slots,
            ),
    decreases slots.len(),
{
    if slots.len() > 0 {
        let d = slots.drop_last();
        lemma_placed_row_columns(actions, d);
        lemma_first_slot_match_fills(actions, slots.last());
        let before = placed_row(actions, d);
        let all = placed_row(actions, slots);
        assert forall|k: int| 0 <= k < all.len() implies fills_slot_in_column(#[trigger] all[k], slots) by {
            if k < before.len() {
                assert(all[k] == before[k]);
                assert(slots[before[k].menu_column as int] == d[before[k].menu_column as int]);
            } else {
                let col = slots.len() - 1;
                assert(all[k].menu_column == col as u8);
            }
        }
    }
}

proof fn lemma_placed_rows_columns(actions: Seq<FlightPlanRowActionUiView>, layout: Seq<Seq<FlightPlanRowActionId>>)
    requires
        forall|l: int| 0 <= l < layout.len() ==> (#[trigger] layout[l]).len() <= 2,
    ensures
        forall|a: int, b: int|
            0 <= a < placed_rows(actions, layout).len() && 0 <= b < placed_rows(actions, layout)[a].len()
                ==> exists|l: int|
                0 <= l < layout.len() && fills_slot_in_column(
                    #[trigger] placed_rows(actions, layout)[a][b],
                    #[trigger] layout[l],
                ),
    decreases layout.len(),
{
    if layout.len() > 0 {
        let d = layout.drop_last();
        assert forall|l: int| 0 <= l < d.len() implies (#[trigger] d[l]).len() <= 2 by {
            assert(d[l] == layout[l]);
        }
        lemma_placed_rows_columns(actions, d);
        let last = layout.last();
        lemma_placed_row_columns(actions, last);
        let before = placed_rows(actions, d);
        let all = placed_rows(actions, layout);
        let row = placed_row(actions, last);
        assert forall|a: int, b: int| 0 <= a < all.len() && 0 <= b < all[a].len() implies exists|l: int|
            0 <= l < layout.len() && fills_slot_in_column(#[trigger] all[a][b], #[trigger] layout[l]) by {
            if a < before.len() {
                assert(all[a] == before[a]);
                let l = choose|l: int| 0 <= l < d.len() && fills_slot_in_column(#[trigger] before[a][b], #[trigger] d[l]);
                assert(layout[l] == d[l]);
            } else {
                assert(all[a] == row);
                assert(layout[layout.len() - 1] == last);
                assert(fills_slot_in_column(row[b], last));
            }
        }
    }
}

/// Each action that a layout slot takes sits in the column of that slot:
/// in its menu row, in the column of a slot of a layout row that it fills.
pub proof fn law_placed_actions_sit_in_their_slot_columns(actions: Seq<FlightPlanRowActionUiView>)
    ensures
        forall|a: int, b: int|
            0 <= a < placed_rows(actions, spec_matrix_layout()).len() && 0 <= b < placed_rows(
                actions,
                spec_matrix_layout(),
            )[a].len() ==> exists|l: int|
                0 <= l < spec_matrix_layout().len() && fills_slot_in_column(
                    #[trigger] spec_action_matrix(actions)[a][b],
                    #[trigger] spec_matrix_layout()[l],
                ),
{
    let lay = spec_matrix_layout();
    assert forall|l: int| 0 <= l < lay.len() implies (#[trigger] lay[l]).len() <= 2 by {}
    lemma_placed_rows_columns(actions, lay);
    let rows = placed_rows(actions, lay);
    let m = spec_action_matrix(actions);
    assert(m == rows + leftover_rows(actions, placed_ids(rows)));
    assert forall|a: int, b: int| 0 <= a < rows.len() && 0 <= b < rows[a].len() implies exists|l: int|
        0 <= l < lay.len() && fills_slot_in_column(#[trigger] m[a][b], #[trigger] lay[l]) by {
        assert(m[a] == rows[a]);
        let l = choose|l: int| 0 <= l < lay.len() && fills_slot_in_column(#[trigger] rows[a][b], #[trigger] lay[l]);
    }
}

} // verus!

verus! {

/// The action is not among the placed ids `used`.
pub open spec fn unplaced(used: Seq<FlightPlanRowActionId>) -> spec_fn(FlightPlanRowActionUiView) -> bool {
    |a: FlightPlanRowActionUiView| !used.contains(a.id)
}

/// Each action in a row of its own.
pub open spec fn alone() -> spec_fn(FlightPlanRowActionUiView) -> Seq<FlightPlanRowActionUiView> {
    |a: FlightPlanRowActionUiView| seq![a]
}

proof fn lemma_leftover_rows_filter(actions: Seq<FlightPlanRowActionUiView>, used: Seq<FlightPlanRowActionId>)
    ensures
        leftover_rows(actions, used) == actions.filter(unplaced(used)).map_values(alone()),
    decreases actions.len(),
{
    reveal_with_fuel(Seq::<FlightPlanRowActionUiView>::filter, 1);
    if actions.len() > 0 {
        lemma_leftover_rows_filter(actions.drop_last(), used);
        let f = actions.drop_last().filter(unplaced(used));
        let g = alone();
        if !used.contains(actions.last().id) {
            assert(actions.filter(unplaced(used)) == f.push(actions.last()));
            assert(f.push(actions.last()).map_values(g) =~= f.map_values(g).push(seq![actions.last()]));
        } else {
            assert(actions.filter(unplaced(used)) == f);
        }
    }
}

/// After the slot rows, the matrix gives each action that no slot took a
/// row of its own, unchanged, in the order the actions come.
pub proof fn law_unplaced_actions_follow_in_order(actions: Seq<FlightPlanRowActionUiView>)
    ensures
        ({
            let rows = placed_rows(actions, spec_matrix_layout());
            spec_action_matrix(actions) == rows + actions.filter(unplaced(placed_ids(rows))).map_values(alone())
        }),
{
    let rows = placed_rows(actions, spec_matrix_layout());
    lemma_leftover_rows_filter(actions, placed_ids(rows));
}

} // verus!

verus! {

/// The slots of a layout: none is Remove Procedure, and no slot stands twice.
pub open spec fn layout_slots_distinct(layout: Seq<Seq<FlightPlanRowActionId>>) -> bool {
    &&& forall|l: int, c: int|
        0 <= l < layout.len() && 0 <= c < layout[l].len() ==> #[trigger] layout[l][c]
            != FlightPlanRowActionId::RemoveProcedure
    &&& forall|l1: int, c1: int, l2: int, c2: int|
        0 <= l1 < layout.len() && 0 <= c1 < layout[l1].len() && 0 <= l2 < layout.len() && 0 <= c2
            < layout[l2].len() && (l1 != l2 || c1 != c2) ==> #[trigger] layout[l1][c1]
            != #[trigger] layout[l2][c2]
}

proof fn lemma_layout_slots_distinct()
    ensures
        layout_slots_distinct(spec_matrix_layout()),
        forall|l: int| 0 <= l < spec_matrix_layout().len() ==> (#[trigger] spec_matrix_layout()[l]).len() <= 2,
{
    let lay = spec_matrix_layout();
    assert(lay.len() == 8);
    assert(lay[0].len() == 2 && lay[1].len() == 2 && lay[2].len() == 2 && lay[3].len() == 2);
    assert(lay[4].len() == 2 && lay[5].len() == 2 && lay[6].len() == 2 && lay[7].len() == 1);
}

/// An action id fills at most one of the slots of a layout whose slots are
/// distinct.
proof fn lemma_one_slot_per_id(x: FlightPlanRowActionId, s1: FlightPlanRowActionId, s2: FlightPlanRowActionId)
    requires
        s1 != FlightPlanRowActionId::RemoveProcedure,
        s2 != FlightPlanRowActionId::RemoveProcedure,
        spec_matches_slot(x, s1),
        spec_matches_slot(x, s2),
    ensures
        s1 == s2,
{
}

proof fn lemma_placed_ids_append(a: Seq<Seq<FlightPlanRowActionUiView>>, b: Seq<Seq<FlightPlanRowActionUiView>>)
    ensures
        placed_ids(a + b) == placed_ids(a) + placed_ids(b),
    decreases b.len(),
{
    if b.len() == 0 {
        assert(a + b =~= a);
        assert(placed_ids(a) + placed_ids(b) =~= placed_ids(a));
    } else {
        lemma_placed_ids_append(a, b.drop_last());
        assert((a + b).drop_last() =~= a + b.drop_last());
        assert((a + b).last() == b.last());
        assert(placed_ids(a) + placed_ids(b) =~= placed_ids(a) + placed_ids(b.drop_last())
            + b.last().map_values(|e: FlightPlanRowActionUiView| e.id));
    }
}

} // verus!

verus! {

proof fn lemma_placed_row_len(actions: Seq<FlightPlanRowActionUiView>, slots: Seq<FlightPlanRowActionId>)
    ensures
        placed_row(actions, slots).len() <= slots.len(),
    decreases slots.len(),
{
    if slots.len() > 0 {
        lemma_placed_row_len(actions, slots.drop_last());
    }
}

proof fn lemma_placed_row_ids(actions: Seq<FlightPlanRowActionUiView>, slots: Seq<FlightPlanRowActionId>)
    requires
        slots.len() <= 2,
        slots.len() == 2 ==> slots[0] != slots[1],
        forall|c: int| 0 <= c < slots.len() ==> #[trigger] slots[c] != FlightPlanRowActionId::RemoveProcedure,
    ensures
        placed_ids(seq![placed_row(actions, slots)]).no_duplicates(),
        placed_ids(seq![placed_row(actions, slots)]).len() == placed_row(actions, slots).len(),
        forall|k: int|
            0 <= k < placed_row(actions, slots).len() ==> placed_ids(seq![placed_row(actions, slots)])[k]
                == (#[trigger] placed_row(actions, slots)[k]).id,
{
    let row = placed_row(actions, slots);
    let ids = placed_ids(seq![row]);
    assert(seq![row].drop_last() =~= Seq::<Seq<FlightPlanRowActionUiView>>::empty());
    assert(seq![row].last() == row);
    assert(placed_ids(Seq::<Seq<FlightPlanRowActionUiView>>::empty()) == Seq::<FlightPlanRowActionId>::empty());
    assert(ids =~= Seq::<FlightPlanRowActionId>::empty() + row.map_values(|e: FlightPlanRowActionUiView| e.id));
    assert(ids.len() == row.len());
    assert(forall|k: int| 0 <= k < row.len() ==> ids[k] == (#[trigger] row[k]).id);
    lemma_placed_row_columns(actions, slots);
    lemma_placed_row_len(actions, slots);
    if slots.len() == 2 {
        lemma_placed_row_len(actions, slots.drop_last());
        lemma_placed_row_columns(actions, slots.drop_last());
        let one = placed_row(actions, slots.drop_last());
        assert(slots.drop_last().drop_last() =~= Seq::<FlightPlanRowActionId>::empty());
        assert(one.len() <= 1);
        if row.len() == 2 {
            assert(row[0] == one[0]);
            assert(fills_slot_in_column(one[0], slots.drop_last()));
            assert(row[0].menu_column == 0u8);
            assert(row[1].menu_column == 1u8);
            assert(fills_slot_in_column(row[0], slots));
            assert(fills_slot_in_column(row[1], slots));
            if row[0].id == row[1].id {
                lemma_one_slot_per_id(row[0].id, slots[0], slots[1]);
            }
            assert(ids[0] != ids[1]);
        }
        assert(row.len() <= 2);
    } else if slots.len() == 1 {
        assert(slots.drop_last() =~= Seq::<FlightPlanRowActionId>::empty());
        assert(row.len() <= 1);
    } else {
        assert(row.len() == 0);
    }
}

proof fn lemma_placed_rows_ids(actions: Seq<FlightPlanRowActionUiView>, layout: Seq<Seq<FlightPlanRowActionId>>)
    requires
        layout_slots_distinct(layout),
        forall|l: int| 0 <= l < layout.len() ==> (#[trigger] layout[l]).len() <= 2,
    ensures
        placed_ids(placed_rows(actions, layout)).no_duplicates(),
        forall|p: int|
            0 <= p < placed_ids(placed_rows(actions, layout)).len() ==> exists|l: int, c: int|
                0 <= l < layout.len() && 0 <= c < layout[l].len() && spec_matches_slot(
                    #[trigger] placed_ids(placed_rows(actions, layout))[p],
                    #[trigger] layout[l][c],
                ),
    decreases layout.len(),
{
    if layout.len() > 0 {
        let d = layout.drop_last();
        let n = layout.len() - 1;
        assert forall|l: int| 0 <= l < d.len() implies (#[trigger] d[l]).len() <= 2 by {
            assert(d[l] == layout[l]);
        }
        assert(layout_slots_distinct(d)) by {
            assert forall|l: int, c: int| 0 <= l < d.len() && 0 <= c < d[l].len() implies #[trigger] d[l][c]
                != FlightPlanRowActionId::RemoveProcedure by {
                assert(d[l] == layout[l]);
            }
            assert forall|l1: int, c1: int, l2: int, c2: int|
                0 <= l1 < d.len() && 0 <= c1 < d[l1].len() && 0 <= l2 < d.len() && 0 <= c2 < d[l2].len()
                    && (l1 != l2 || c1 != c2) implies #[trigger] d[l1][c1] != #[trigger] d[l2][c2] by {
                assert(d[l1] == layout[l1] && d[l2] == layout[l2]);
            }
        }
        lemma_placed_rows_ids(actions, d);
        let last = layout[n];
        assert(last == layout.last());
        assert(last.len() == 2 ==> last[0] != last[1]);
        assert forall|c: int| 0 <= c < last.len() implies #[trigger] last[c] != FlightPlanRowActionId::RemoveProcedure by {}
        lemma_placed_row_ids(actions, last);
        lemma_placed_row_columns(actions, last);
        let before = placed_rows(actions, d);
        let row = placed_row(actions, last);
        let pb = placed_ids(before);
        let pr = placed_ids(seq![row]);
        if row.len() > 0 {
            lemma_placed_ids_append(before, seq![row]);
            assert(before.push(row) =~= before + seq![row]);
            let all = pb + pr;
            assert forall|i: int, j: int| 0 <= i < j < all.len() implies all[i] != all[j] by {
                if j < pb.len() {
                    assert(all[i] == pb[i] && all[j] == pb[j]);
                } else if i >= pb.len() {
                    assert(all[i] == pr[i - pb.len()] && all[j] == pr[j - pb.len()]);
                } else {
                    let k = j - pb.len();
                    assert(all[j] == row[k].id);
                    assert(fills_slot_in_column(row[k], last));
                    let (l, c) = choose|l: int, c: int|
                        0 <= l < d.len() && 0 <= c < d[l].len() && spec_matches_slot(#[trigger] pb[i], #[trigger] d[l][c]);
                    assert(d[l] == layout[l]);
                    if all[i] == all[j] {
                        assert(all[i] == pb[i]);
                        lemma_one_slot_per_id(pb[i], layout[l][c], layout[n][row[k].menu_column as int]);
                    }
                }
            }
            assert forall|p: int| 0 <= p < all.len() implies exists|l: int, c: int|
                0 <= l < layout.len() && 0 <= c < layout[l].len() && spec_matches_slot(
                    #[trigger] all[p],
                    #[trigger] layout[l][c],
                ) by {
                if p < pb.len() {
                    assert(all[p] == pb[p]);
                    let (l, c) = choose|l: int, c: int|
                        0 <= l < d.len() && 0 <= c < d[l].len() && spec_matches_slot(#[trigger] pb[p], #[trigger] d[l][c]);
                    assert(d[l] == layout[l]);
                } else {
                    let k = p - pb.len();
                    assert(all[p] == row[k].id);
                    assert(fills_slot_in_column(row[k], last));
                    assert(layout[n][row[k].menu_column as int] == last[row[k].menu_column as int]);
                }
            }
        } else {
            assert forall|p: int| 0 <= p < pb.len() implies exists|l: int, c: int|
                0 <= l < layout.len() && 0 <= c < layout[l].len() && spec_matches_slot(
                    #[trigger] pb[p],
                    #[trigger] layout[l][c],
                ) by {
                let (l, c) = choose|l: int, c: int|
                    0 <= l < d.len() && 0 <= c < d[l].len() && spec_matches_slot(#[trigger] pb[p], #[trigger] d[l][c]);
                assert(d[l] == layout[l]);
            }
        }
    }
}

} // verus!

verus! {

/// No two actions have the same id.
pub open spec fn distinct_action_ids(actions: Seq<FlightPlanRowActionUiView>) -> bool {
    forall|i: int, j: int| 0 <= i < j < actions.len() ==> (#[trigger] actions[i]).id != (#[trigger] actions[j]).id
}

proof fn lemma_leftover_ids(actions: Seq<FlightPlanRowActionUiView>, used: Seq<FlightPlanRowActionId>)
    requires
        distinct_action_ids(actions),
    ensures
        placed_ids(leftover_rows(actions, used)).no_duplicates(),
        forall|p: int|
            0 <= p < placed_ids(leftover_rows(actions, used)).len() ==> !used.contains(
                #[trigger] placed_ids(leftover_rows(actions, used))[p],
            ) && exists|i: int| 0 <= i < actions.len() && placed_ids(leftover_rows(actions, used))[p]
                == (#[trigger] actions[i]).id,
    decreases actions.len(),
{
    if actions.len() > 0 {
        let d = actions.drop_last();
        assert(distinct_action_ids(d)) by {
            assert forall|i: int, j: int| 0 <= i < j < d.len() implies (#[trigger] d[i]).id != (#[trigger] d[j]).id by {
                assert(d[i] == actions[i] && d[j] == actions[j]);
            }
        }
        lemma_leftover_ids(d, used);
        let before = leftover_rows(d, used);
        let pb = placed_ids(before);
        let x = actions.last();
        if !used.contains(x.id) {
            let all = before.push(seq![x]);
            assert(all.drop_last() =~= before);
            assert(seq![x].map_values(|e: FlightPlanRowActionUiView| e.id) =~= seq![x.id]);
            let pa = placed_ids(all);
            assert(pa =~= pb.push(x.id));
            assert forall|p: int| 0 <= p < pb.len() implies pb[p] != x.id by {
                let i = choose|i: int| 0 <= i < d.len() && pb[p] == (#[trigger] d[i]).id;
                assert(d[i] == actions[i]);
                assert(actions[actions.len() - 1] == x);
            }
            assert forall|i: int, j: int| 0 <= i < j < pa.len() implies pa[i] != pa[j] by {
                if j < pb.len() {
                    assert(pa[i] == pb[i] && pa[j] == pb[j]);
                } else {
                    assert(pa[i] == pb[i] && pa[j] == x.id);
                }
            }
            assert forall|p: int| 0 <= p < pa.len() implies !used.contains(#[trigger] pa[p]) && exists|i: int|
                0 <= i < actions.len() && pa[p] == (#[trigger] actions[i]).id by {
                if p < pb.len() {
                    assert(pa[p] == pb[p]);
                    let i = choose|i: int| 0 <= i < d.len() && pb[p] == (#[trigger] d[i]).id;
                    assert(d[i] == actions[i]);
                } else {
                    assert(pa[p] == actions[actions.len() - 1].id);
                }
            }
        } else {
            assert forall|p: int| 0 <= p < pb.len() implies !used.contains(#[trigger] pb[p]) && exists|i: int|
                0 <= i < actions.len() && pb[p] == (#[trigger] actions[i]).id by {
                let i = choose|i: int| 0 <= i < d.len() && pb[p] == (#[trigger] d[i]).id;
                assert(d[i] == actions[i]);
            }
        }
    }
}

/// Where no two actions share an id, the action matrix lists each action
/// once: its ids, row by row, hold no duplicate.
pub proof fn law_action_matrix_lists_each_action_once(actions: Seq<FlightPlanRowActionUiView>)
    requires
        distinct_action_ids(actions),
    ensures
        placed_ids(spec_action_matrix(actions)).no_duplicates(),
{
    let lay = spec_matrix_layout();
    lemma_layout_slots_distinct();
    lemma_placed_rows_ids(actions, lay);
    let rows = placed_rows(actions, lay);
    let pr = placed_ids(rows);
    let left = leftover_rows(actions, pr);
    lemma_leftover_ids(actions, pr);
    lemma_placed_ids_append(rows, left);
    let pl = placed_ids(left);
    let all = pr + pl;
    assert forall|i: int, j: int| 0 <= i < j < all.len() implies all[i] != all[j] by {
        if j < pr.len() {
            assert(all[i] == pr[i] && all[j] == pr[j]);
        } else if i >= pr.len() {
            assert(all[i] == pl[i - pr.len()] && all[j] == pl[j - pr.len()]);
        } else {
            assert(all[i] == pr[i] && all[j] == pl[j - pr.len()]);
            assert(!pr.contains(pl[j - pr.len()]));
        }
    }
}

} // verus!
