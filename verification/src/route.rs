//! Route components of a flight plan, and the rules on how departure,
//! arrival and approach procedures attach to the route's airports.
use crate::nav::{
    airport_id_from_nav_ref, nav_ref_label, spec_nav_ref_label, AirportId, NavRef,
};
use crate::text::{format_hex16, hex16, owned, str_eq, trim, trimmed};
use vstd::prelude::*;

verus! {

/// Errors of flight-plan operations.
#[derive(Clone, Copy, Debug, PartialEq, Eq, Structural)]
pub enum AppErrorKind {
    InvalidFlightPlan,
    UnsupportedOperation,
}

/// An error with its kind and a message for the pilot.
#[derive(Clone, Debug, PartialEq, Eq)]
pub struct AppError {
    pub kind: AppErrorKind,
    pub message: String,
}

pub const DEPARTURE_ATTACHMENT_MESSAGE: &'static str =
    "A departure procedure is attached to the origin airport.";

pub const ARRIVAL_ATTACHMENT_MESSAGE: &'static str =
    "An arrival procedure is attached to the destination airport.";

pub const APPROACH_ATTACHMENT_MESSAGE: &'static str =
    "An approach procedure is attached to the destination airport.";

/// The kind of a terminal procedure.
#[derive(Clone, Copy, Debug, PartialEq, Eq, Structural)]
pub enum ProcedureKind {
    Sid,
    Star,
    Approach,
}

impl ProcedureKind {
    /// The accent category that the map uses for the procedure kind.
    pub fn accent_category(&self) -> (r: &'static str)
        ensures
            r@ == match *self {
                ProcedureKind::Sid => "departure"@,
                ProcedureKind::Star => "star"@,
                ProcedureKind::Approach => "approach"@,
            },
    {
        match self {
            ProcedureKind::Sid => "departure",
            ProcedureKind::Star => "star",
            ProcedureKind::Approach => "approach",
        }
    }
}

/// Where a procedure stops being a continuous path.
#[derive(Clone, Debug, PartialEq, Eq)]
pub enum ProcedureDiscontinuity {
    Vectors,
    Hold,
    Other(String),
}

pub open spec fn spec_discontinuity_label(d: ProcedureDiscontinuity) -> Seq<char> {
    match d {
        ProcedureDiscontinuity::Vectors => "VECTORS"@,
        ProcedureDiscontinuity::Hold => "HOLD"@,
        ProcedureDiscontinuity::Other(label) => label@,
    }
}

impl ProcedureDiscontinuity {
    /// The label that the flight plan shows for the discontinuity.
    pub fn display_label(&self) -> (r: &str)
        ensures
            r@ == spec_discontinuity_label(*self),
    {
        match self {
            ProcedureDiscontinuity::Vectors => "VECTORS",
            ProcedureDiscontinuity::Hold => "HOLD",
            ProcedureDiscontinuity::Other(label) => label.as_str(),
        }
    }

    /// A copy of this discontinuity.
    pub fn duplicate(&self) -> (r: ProcedureDiscontinuity)
        ensures
            r == *self,
    {
        match self {
            ProcedureDiscontinuity::Vectors => ProcedureDiscontinuity::Vectors,
            ProcedureDiscontinuity::Hold => ProcedureDiscontinuity::Hold,
            ProcedureDiscontinuity::Other(label) => ProcedureDiscontinuity::Other(label.clone()),
        }
    }
}

/// The path terminator of a procedure leg.
#[derive(Clone, Debug, PartialEq, Eq)]
pub enum PathTermination {
    InitialFix,
    TrackToFix,
    CourseToFix,
    DirectToFix,
    HeadingToManual,
    HeadingToAltitude,
    Other(String),
}

impl PathTermination {
    /// A copy of this path terminator.
    pub fn duplicate(&self) -> (r: PathTermination)
        ensures
            r == *self,
    {
        match self {
            PathTermination::InitialFix => PathTermination::InitialFix,
            PathTermination::TrackToFix => PathTermination::TrackToFix,
            PathTermination::CourseToFix => PathTermination::CourseToFix,
            PathTermination::DirectToFix => PathTermination::DirectToFix,
            PathTermination::HeadingToManual => PathTermination::HeadingToManual,
            PathTermination::HeadingToAltitude => PathTermination::HeadingToAltitude,
            PathTermination::Other(code) => PathTermination::Other(code.clone()),
        }
    }
}

/// How the route planner reads a path terminator code, after trimming:
/// `IF`, `TF`, `CF`, `DF` by name, `VM`/`FM` as heading to manual
/// termination, `VA`/`CA` as heading to altitude, anything else as itself.
pub open spec fn route_reads_path_termination(code: Seq<char>, r: PathTermination) -> bool {
    let t = trimmed(code);
    if t == "IF"@ {
        r is InitialFix
    } else if t == "TF"@ {
        r is TrackToFix
    } else if t == "CF"@ {
        r is CourseToFix
    } else if t == "DF"@ {
        r is DirectToFix
    } else if t == "VM"@ || t == "FM"@ {
        r is HeadingToManual
    } else if t == "VA"@ || t == "CA"@ {
        r is HeadingToAltitude
    } else {
        r matches PathTermination::Other(s) && s@ == t
    }
}

/// The path terminator that a route-planning code names.
pub fn interpret_path_termination(code: &str) -> (r: PathTermination)
    ensures
        route_reads_path_termination(code@, r),
{
    let t = trim(code);
    if str_eq(t, "IF") {
        PathTermination::InitialFix
    } else if str_eq(t, "TF") {
        PathTermination::TrackToFix
    } else if str_eq(t, "CF") {
        PathTermination::CourseToFix
    } else if str_eq(t, "DF") {
        PathTermination::DirectToFix
    } else if str_eq(t, "VM") || str_eq(t, "FM") {
        PathTermination::HeadingToManual
    } else if str_eq(t, "VA") || str_eq(t, "CA") {
        PathTermination::HeadingToAltitude
    } else {
        PathTermination::Other(owned(t))
    }
}

/// A departure, arrival or approach in the route.
#[derive(Clone, Debug, PartialEq, Eq)]
pub struct ProcedureSegment {
    pub airport_id: AirportId,
    pub procedure_id: String,
    pub display_label: Option<String>,
    pub kind: ProcedureKind,
    pub runway_transition: Option<String>,
    pub enroute_transition: Option<String>,
    pub terminal_discontinuity: Option<ProcedureDiscontinuity>,
    pub data_quality: Vec<String>,
}

/// The display label when it has text after trimming, else the procedure id.
pub open spec fn spec_pilot_facing_label(p: ProcedureSegment) -> Seq<char> {
    match p.display_label {
        Some(label) if trimmed(label@).len() > 0 => trimmed(label@),
        _ => p.procedure_id@,
    }
}

impl ProcedureSegment {
    /// The name that the pilot sees for the procedure.
    pub fn pilot_facing_label(&self) -> (r: &str)
        ensures
            r@ == spec_pilot_facing_label(*self),
    {
        match &self.display_label {
            Some(label) => {
                let t = trim(label.as_str());
                if t.unicode_len() > 0 {
                    t
                } else {
                    self.procedure_id.as_str()
                }
            },
            None => self.procedure_id.as_str(),
        }
    }
}

/// An airway between two of its fixes.
#[derive(Clone, Debug, PartialEq, Eq)]
pub struct AirwaySegment {
    pub name: String,
    pub branch_key: Option<String>,
    pub entry: NavRef,
    pub exit: NavRef,
}

/// One element of the route as the pilot built it.
#[derive(Clone, Debug, PartialEq, Eq)]
pub enum RouteComponent {
    Waypoint { waypoint: NavRef },
    Airway { airway: AirwaySegment },
    Procedure { procedure: ProcedureSegment },
}

fn duplicate_texts(v: &Vec<String>) -> (r: Vec<String>)
    ensures
        r@ == v@,
{
    let mut r: Vec<String> = Vec::new();
    let mut i: usize = 0;
    while i < v.len()
        invariant
            i <= v@.len(),
            r@ == v@.take(i as int),
        decreases v@.len() - i,
    {
        r.push(v[i].clone());
        assert(v@.take(i + 1) =~= v@.take(i as int).push(v@[i as int]));
        i = i + 1;
    }
    assert(v@.take(v@.len() as int) =~= v@);
    r
}

fn duplicate_text(s: &Option<String>) -> (r: Option<String>)
    ensures
        r == *s,
{
    match s {
        Some(x) => Some(x.clone()),
        None => None,
    }
}

/// Two procedures with the same fields, their data-quality notes compared by
/// text.
pub open spec fn same_procedure(a: ProcedureSegment, b: ProcedureSegment) -> bool {
    &&& a == ProcedureSegment { data_quality: a.data_quality, ..b }
    &&& a.data_quality@ == b.data_quality@
}

/// Two components that are the same, a procedure's notes compared by text.
pub open spec fn same_component(a: RouteComponent, b: RouteComponent) -> bool {
    match (a, b) {
        (
            RouteComponent::Procedure { procedure: p },
            RouteComponent::Procedure { procedure: q },
        ) => same_procedure(p, q),
        _ => a == b,
    }
}

impl ProcedureSegment {
    /// A copy of this procedure.
    pub fn duplicate(&self) -> (r: ProcedureSegment)
        ensures
            same_procedure(r, *self),
    {
        ProcedureSegment {
            airport_id: AirportId(self.airport_id.0.clone()),
            procedure_id: self.procedure_id.clone(),
            display_label: duplicate_text(&self.display_label),
            kind: self.kind,
            runway_transition: duplicate_text(&self.runway_transition),
            enroute_transition: duplicate_text(&self.enroute_transition),
            terminal_discontinuity: match &self.terminal_discontinuity {
                Some(d) => Some(d.duplicate()),
                None => None,
            },
            data_quality: duplicate_texts(&self.data_quality),
        }
    }
}

impl AirwaySegment {
    /// A copy of this airway.
    pub fn duplicate(&self) -> (r: AirwaySegment)
        ensures
            r == *self,
    {
        AirwaySegment {
            name: self.name.clone(),
            branch_key: duplicate_text(&self.branch_key),
            entry: self.entry.duplicate(),
            exit: self.exit.duplicate(),
        }
    }
}

impl RouteComponent {
    /// A copy of this component.
    pub fn duplicate(&self) -> (r: RouteComponent)
        ensures
            same_component(r, *self),
    {
        match self {
            RouteComponent::Waypoint { waypoint } => RouteComponent::Waypoint {
                waypoint: waypoint.duplicate(),
            },
            RouteComponent::Airway { airway } => RouteComponent::Airway { airway: airway.duplicate() },
            RouteComponent::Procedure { procedure } => RouteComponent::Procedure {
                procedure: procedure.duplicate(),
            },
        }
    }
}

impl RouteComponent {
    /// Whether the component is a single waypoint.
    pub fn is_waypoint(&self) -> (r: bool)
        ensures
            r == (*self is Waypoint),
    {
        match self {
            RouteComponent::Waypoint { .. } => true,
            _ => false,
        }
    }
}

/// One entry of a component as the flight plan lists it: a waypoint, or a
/// break in the procedure's path.
#[derive(Clone, Debug, PartialEq, Eq)]
pub enum ConcretizedNavItem {
    Waypoint { nav_ref: NavRef },
    Discontinuity { discontinuity: ProcedureDiscontinuity, label: String },
}

/// The kind of a route component in the flight-plan view.
#[derive(Clone, Copy, Debug, PartialEq, Eq, Structural)]
pub enum RouteComponentViewKind {
    Waypoint,
    Airway,
    Procedure,
}

pub open spec fn spec_view_kind(c: RouteComponent) -> RouteComponentViewKind {
    match c {
        RouteComponent::Waypoint { .. } => RouteComponentViewKind::Waypoint,
        RouteComponent::Airway { .. } => RouteComponentViewKind::Airway,
        RouteComponent::Procedure { .. } => RouteComponentViewKind::Procedure,
    }
}

/// The view kind of a component.
pub fn component_view_kind(component: &RouteComponent) -> (r: RouteComponentViewKind)
    ensures
        r == spec_view_kind(*component),
{
    match component {
        RouteComponent::Waypoint { .. } => RouteComponentViewKind::Waypoint,
        RouteComponent::Airway { .. } => RouteComponentViewKind::Airway,
        RouteComponent::Procedure { .. } => RouteComponentViewKind::Procedure,
    }
}

/// The one-line summary of a component: the waypoint's label, the airway's
/// name or the procedure's pilot-facing label.
pub open spec fn spec_component_summary(c: RouteComponent) -> Seq<char> {
    match c {
        RouteComponent::Waypoint { waypoint } => spec_nav_ref_label(waypoint),
        RouteComponent::Airway { airway } => airway.name@,
        RouteComponent::Procedure { procedure } => spec_pilot_facing_label(procedure),
    }
}

/// The summary of a component.
pub fn component_summary(component: &RouteComponent) -> (r: String)
    ensures
        r@ == spec_component_summary(*component),
{
    match component {
        RouteComponent::Waypoint { waypoint } => nav_ref_label(waypoint),
        RouteComponent::Airway { airway } => airway.name.clone(),
        RouteComponent::Procedure { procedure } => owned(procedure.pilot_facing_label()),
    }
}

/// The procedure id of a procedure component.
pub fn component_procedure_id(component: &RouteComponent) -> (r: Option<String>)
    ensures
        match *component {
            RouteComponent::Procedure { procedure } => r == Some(procedure.procedure_id),
            _ => r is None,
        },
{
    match component {
        RouteComponent::Procedure { procedure } => Some(procedure.procedure_id.clone()),
        _ => None,
    }
}

/// The kind of a procedure component.
pub fn component_procedure_kind(component: &RouteComponent) -> (r: Option<ProcedureKind>)
    ensures
        match *component {
            RouteComponent::Procedure { procedure } => r == Some(procedure.kind),
            _ => r is None,
        },
{
    match component {
        RouteComponent::Procedure { procedure } => Some(procedure.kind),
        _ => None,
    }
}

/// The airport whose charts belong to a component: an airport waypoint's
/// airport, or a procedure's airport.
pub fn component_chart_airport_id(component: &RouteComponent) -> (r: Option<String>)
    ensures
        match *component {
            RouteComponent::Waypoint { waypoint } => match waypoint {
                NavRef::Airport(code) => r is Some && r->0@ == code@,
                _ => r is None,
            },
            RouteComponent::Procedure { procedure } => r == Some(procedure.airport_id.0),
            RouteComponent::Airway { .. } => r is None,
        },
{
    match component {
        RouteComponent::Waypoint { waypoint } => airport_id_from_nav_ref(waypoint),
        RouteComponent::Procedure { procedure } => Some(procedure.airport_id.0.clone()),
        RouteComponent::Airway { .. } => None,
    }
}

/// The index `direction` places away from `index`, where it is a valid
/// position (zero or more).
pub open spec fn offset_index(index: int, direction: int) -> int {
    index + direction
}

/// The waypoint of the component `direction` places away from
/// `component_index`, where that component exists and is a waypoint.
pub open spec fn spec_adjacent_waypoint(
    components: Seq<RouteComponent>,
    component_index: int,
    direction: int,
) -> Option<NavRef> {
    let j = offset_index(component_index, direction);
    if 0 <= j < components.len() {
        match components[j] {
            RouteComponent::Waypoint { waypoint } => Some(waypoint),
            _ => None,
        }
    } else {
        None
    }
}

/// The waypoint next to a component, before it for a negative direction.
pub fn adjacent_waypoint_component(
    components: &[RouteComponent],
    component_index: usize,
    direction: isize,
) -> (r: Option<NavRef>)
    ensures
        r == spec_adjacent_waypoint(components@, component_index as int, direction as int),
{
    let n = components.len();
    let adjacent = component_index as i128 + direction as i128;
    if adjacent < 0 || adjacent >= n as i128 {
        return None;
    }
    let adjacent_index = adjacent as usize;
    match &components[adjacent_index] {
        RouteComponent::Waypoint { waypoint } => Some(waypoint.duplicate()),
        _ => None,
    }
}

/// Whether a message is one of the three procedure-attachment messages.
pub open spec fn spec_is_attachment_message(message: Seq<char>) -> bool {
    message == DEPARTURE_ATTACHMENT_MESSAGE@ || message == ARRIVAL_ATTACHMENT_MESSAGE@ || message
        == APPROACH_ATTACHMENT_MESSAGE@
}

/// Whether `message` is a procedure-attachment message.
pub fn is_procedure_attachment_message(message: &str) -> (r: bool)
    ensures
        r == spec_is_attachment_message(message@),
{
    str_eq(message, DEPARTURE_ATTACHMENT_MESSAGE) || str_eq(message, ARRIVAL_ATTACHMENT_MESSAGE)
        || str_eq(message, APPROACH_ATTACHMENT_MESSAGE)
}

/// An invalid-flight-plan error with the given message.
pub fn procedure_attachment_error(message: &str) -> (r: AppError)
    ensures
        r.kind == AppErrorKind::InvalidFlightPlan,
        r.message@ == message@,
{
    AppError { kind: AppErrorKind::InvalidFlightPlan, message: owned(message) }
}

pub open spec fn is_procedure_of(c: RouteComponent, kind: ProcedureKind) -> bool {
    match c {
        RouteComponent::Procedure { procedure } => procedure.kind == kind,
        _ => false,
    }
}

/// The indices, in order, of the procedures of one kind.
pub open spec fn procedure_indices(cs: Seq<RouteComponent>, kind: ProcedureKind) -> Seq<usize>
    decreases cs.len(),
{
    if cs.len() == 0 {
        Seq::empty()
    } else if is_procedure_of(cs.last(), kind) {
        procedure_indices(cs.drop_last(), kind).push((cs.len() - 1) as usize)
    } else {
        procedure_indices(cs.drop_last(), kind)
    }
}

proof fn lemma_procedure_indices_bounded(cs: Seq<RouteComponent>, kind: ProcedureKind)
    requires
        cs.len() <= usize::MAX,
    ensures
        forall|k: int|
            0 <= k < procedure_indices(cs, kind).len() ==> #[trigger] procedure_indices(
                cs,
                kind,
            )[k] < cs.len() && is_procedure_of(cs[procedure_indices(cs, kind)[k] as int], kind),
    decreases cs.len(),
{
    if cs.len() > 0 {
        let prev = cs.drop_last();
        lemma_procedure_indices_bounded(prev, kind);
        assert forall|k: int| 0 <= k < procedure_indices(prev, kind).len() implies #[trigger] procedure_indices(prev, kind)[k] < cs.len() && is_procedure_of(cs[procedure_indices(prev, kind)[k] as int], kind) by {
            assert(cs[procedure_indices(prev, kind)[k] as int] == prev[procedure_indices(prev, kind)[k] as int]);
        }
        let all = procedure_indices(cs, kind);
        let before = procedure_indices(prev, kind);
        if is_procedure_of(cs.last(), kind) {
            assert(all == before.push((cs.len() - 1) as usize));
            assert forall|k: int| 0 <= k < all.len() implies #[trigger] all[k] < cs.len() && is_procedure_of(cs[all[k] as int], kind) by {
                if k < before.len() {
                    assert(all[k] == before[k]);
                } else {
                    assert(all[k] == (cs.len() - 1) as usize);
                }
            }
        } else {
            assert(all == before);
        }
    }
}

fn procedure_indices_of(cs: &[RouteComponent], kind: ProcedureKind) -> (r: Vec<usize>)
    ensures
        r@ == procedure_indices(cs@, kind),
{
    let mut r: Vec<usize> = Vec::new();
    let mut i: usize = 0;
    while i < cs.len()
        invariant
            i <= cs@.len(),
            r@ == procedure_indices(cs@.take(i as int), kind),
        decreases cs@.len() - i,
    {
        let is_kind = match &cs[i] {
            RouteComponent::Procedure { procedure } => procedure.kind == kind,
            _ => false,
        };
        assert(cs@.take(i + 1).drop_last() =~= cs@.take(i as int));
        if is_kind {
            r.push(i);
        }
        i = i + 1;
    }
    assert(cs@.take(cs@.len() as int) =~= cs@);
    r
}

/// A departure at `departure_index` is attached to the origin: it follows the
/// first component, an airport with the same trimmed id.
pub open spec fn departure_attached(cs: Seq<RouteComponent>, departure_index: int) -> bool {
    cs.len() > 0 && 0 <= departure_index < cs.len() && match (cs[0], cs[departure_index]) {
        (
            RouteComponent::Waypoint { waypoint: NavRef::Airport(origin) },
            RouteComponent::Procedure { procedure },
        ) => departure_index == 1 && trimmed(origin@) == trimmed(procedure.airport_id.0@),
        _ => false,
    }
}

/// A procedure at `procedure_index` stands at `expected` and belongs to the
/// airport that ends the route.
pub open spec fn spec_terminal_matches_destination(
    cs: Seq<RouteComponent>,
    procedure_index: int,
    expected: Option<int>,
) -> bool {
    match expected {
        None => false,
        Some(expected_index) => cs.len() > 0 && 0 <= procedure_index < cs.len() && match (
            cs[procedure_index],
            cs.last(),
        ) {
            (
                RouteComponent::Procedure { procedure },
                RouteComponent::Waypoint { waypoint: NavRef::Airport(destination) },
            ) => procedure_index == expected_index && trimmed(procedure.airport_id.0@) == trimmed(
                destination@,
            ),
            _ => false,
        },
    }
}

/// `len - k` where that is not negative.
pub open spec fn checked_back(len: int, k: int) -> Option<int> {
    if len >= k {
        Some(len - k)
    } else {
        None
    }
}

/// Whether a terminal procedure is attached to the destination.
pub fn terminal_procedure_matches_destination(
    route_components: &[RouteComponent],
    procedure_index: usize,
    expected_index: Option<usize>,
) -> (r: bool)
    ensures
        r == spec_terminal_matches_destination(
            route_components@,
            procedure_index as int,
            match expected_index {
                Some(e) => Some(e as int),
                None => None,
            },
        ),
{
    let expected_index = match expected_index {
        Some(e) => e,
        None => return false,
    };
    let n = route_components.len();
    if n == 0 || procedure_index >= n {
        return false;
    }
    match (&route_components[procedure_index], &route_components[n - 1]) {
        (
            RouteComponent::Procedure { procedure },
            RouteComponent::Waypoint { waypoint: NavRef::Airport(destination) },
        ) => procedure_index == expected_index && str_eq(
            trim(procedure.airport_id.0.as_str()),
            trim(destination.as_str()),
        ),
        _ => false,
    }
}

/// Which attachment rule a route breaks first, by the kind of procedure whose
/// message reports it: more than one departure, arrival or approach; a
/// departure that does not directly follow its origin airport; an approach
/// that is not just before its destination airport; an arrival that is not
/// just before the destination (or its approach).
pub open spec fn attachment_violation(cs: Seq<RouteComponent>) -> Option<ProcedureKind> {
    let d = procedure_indices(cs, ProcedureKind::Sid);
    let s = procedure_indices(cs, ProcedureKind::Star);
    let a = procedure_indices(cs, ProcedureKind::Approach);
    if d.len() > 1 {
        Some(ProcedureKind::Sid)
    } else if s.len() > 1 {
        Some(ProcedureKind::Star)
    } else if a.len() > 1 {
        Some(ProcedureKind::Approach)
    } else if d.len() == 1 && !departure_attached(cs, d[0] as int) {
        Some(ProcedureKind::Sid)
    } else if a.len() == 1 && !spec_terminal_matches_destination(
        cs,
        a[0] as int,
        checked_back(cs.len() as int, 2),
    ) {
        Some(ProcedureKind::Approach)
    } else if s.len() == 1 && !spec_terminal_matches_destination(
        cs,
        s[0] as int,
        checked_back(cs.len() as int, if a.len() == 0 { 2 } else { 3 }),
    ) {
        Some(ProcedureKind::Star)
    } else {
        None
    }
}

/// The message that reports an attachment problem of a procedure kind.
pub open spec fn attachment_message(kind: ProcedureKind) -> Seq<char> {
    match kind {
        ProcedureKind::Sid => DEPARTURE_ATTACHMENT_MESSAGE@,
        ProcedureKind::Star => ARRIVAL_ATTACHMENT_MESSAGE@,
        ProcedureKind::Approach => APPROACH_ATTACHMENT_MESSAGE@,
    }
}

/// Checks that every procedure in the route is attached where it belongs.
pub fn validate_procedure_attachments(route_components: &[RouteComponent]) -> (r: Result<
    (),
    AppError,
>)
    ensures
        r is Ok <==> attachment_violation(route_components@) is None,
        r matches Err(e) ==> e.kind == AppErrorKind::InvalidFlightPlan && e.message@
            == attachment_message(attachment_violation(route_components@)->0),
{
    let departure_indices = procedure_indices_of(route_components, ProcedureKind::Sid);
    let arrival_indices = procedure_indices_of(route_components, ProcedureKind::Star);
    let approach_indices = procedure_indices_of(route_components, ProcedureKind::Approach);
    let n = route_components.len();

    if departure_indices.len() > 1 {
        return Err(procedure_attachment_error(DEPARTURE_ATTACHMENT_MESSAGE));
    }
    if arrival_indices.len() > 1 {
        return Err(procedure_attachment_error(ARRIVAL_ATTACHMENT_MESSAGE));
    }
    if approach_indices.len() > 1 {
        return Err(procedure_attachment_error(APPROACH_ATTACHMENT_MESSAGE));
    }
    proof {
        assert(route_components@.len() == n);
        lemma_procedure_indices_bounded(route_components@, ProcedureKind::Sid);
        lemma_procedure_indices_bounded(route_components@, ProcedureKind::Star);
        lemma_procedure_indices_bounded(route_components@, ProcedureKind::Approach);
    }
    if departure_indices.len() == 1 {
        let departure_index = departure_indices[0];
        let valid = match (&route_components[0], &route_components[departure_index]) {
            (
                RouteComponent::Waypoint { waypoint: NavRef::Airport(origin_airport_id) },
                RouteComponent::Procedure { procedure },
            ) => departure_index == 1 && str_eq(
                trim(origin_airport_id.as_str()),
                trim(procedure.airport_id.0.as_str()),
            ),
            _ => false,
        };
        if !valid {
            return Err(procedure_attachment_error(DEPARTURE_ATTACHMENT_MESSAGE));
        }
    }
    if approach_indices.len() == 1 {
        let expected = if n >= 2 {
            Some(n - 2)
        } else {
            None
        };
        if !terminal_procedure_matches_destination(route_components, approach_indices[0], expected) {
            return Err(procedure_attachment_error(APPROACH_ATTACHMENT_MESSAGE));
        }
    }
    if arrival_indices.len() == 1 {
        let back: usize = if approach_indices.len() == 0 {
            2
        } else {
            3
        };
        let expected = if n >= back {
            Some(n - back)
        } else {
            None
        };
        if !terminal_procedure_matches_destination(route_components, arrival_indices[0], expected) {
            return Err(procedure_attachment_error(ARRIVAL_ATTACHMENT_MESSAGE));
        }
    }
    Ok(())
}

/// `fpc:` followed by sixteen hexadecimal digits of the counter.
pub open spec fn spec_route_component_uid(counter: u64) -> Seq<char> {
    "fpc:"@ + hex16(counter)
}

/// Hands out the next route-component uid and advances the counter.
pub fn allocate_route_component_uid(next_counter: &mut u64) -> (uid: String)
    requires
        *old(next_counter) < u64::MAX,
    ensures
        uid@ == spec_route_component_uid(*old(next_counter)),
        *final(next_counter) == *old(next_counter) + 1,
{
    let mut uid = owned("fpc:");
    let digits = format_hex16(*next_counter);
    uid.append(digits.as_str());
    *next_counter = *next_counter + 1;
    uid
}

} // verus!
