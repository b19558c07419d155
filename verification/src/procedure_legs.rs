//! Rules that read the coded path terminator of a procedure leg.
use crate::nav::NavRef;
use crate::route::{PathTermination, ProcedureDiscontinuity};
use crate::text::{owned, str_eq, trim, trimmed};
use vstd::prelude::*;

verus! {

/// The parts of a materialized procedure leg that these rules read: its
/// coded path terminator, the fix it ends at, and its coded turn direction.
#[derive(Clone, Debug, PartialEq, Eq)]
pub struct ProcedureLegMaterializationRecord {
    pub path_termination: String,
    pub nav_ref: Option<NavRef>,
    pub turn_direction: Option<String>,
}

/// How procedure data reads a path terminator code, after trimming:
/// `IF`, `TF`, `CF`, `DF` by name, `FM`/`HF`/`HM` as heading to manual
/// termination, `VA`/`VI` as heading to altitude, anything else as itself.
pub open spec fn leg_reads_path_termination(code: Seq<char>, r: PathTermination) -> bool {
    let t = trimmed(code);
    if t == "IF"@ {
        r is InitialFix
    } else if t == "TF"@ {
        r is TrackToFix
    } else if t == "CF"@ {
        r is CourseToFix
    } else if t == "DF"@ {
        r is DirectToFix
    } else if t == "FM"@ || t == "HF"@ || t == "HM"@ {
        r is HeadingToManual
    } else if t == "VA"@ || t == "VI"@ {
        r is HeadingToAltitude
    } else {
        r matches PathTermination::Other(s) && s@ == t
    }
}

/// The path terminator that a procedure-data code names.
pub fn interpret_path_termination(code: &str) -> (r: PathTermination)
    ensures
        leg_reads_path_termination(code@, r),
{
    let t = trim(code);
    if str_eq(t, "IF") {
        PathTermination::InitialFix
    } else if str_eq(t, "TF") {
        PathTermination::TrackToFix
    } else if str_eq(t, "CF") {
        PathTermination::CourseToFix
    } else if str_eq(t, "DF") {
        PathTermination::DirectToFix
    } else if str_eq(t, "FM") || str_eq(t, "HF") || str_eq(t, "HM") {
        PathTermination::HeadingToManual
    } else if str_eq(t, "VA") || str_eq(t, "VI") {
        PathTermination::HeadingToAltitude
    } else {
        PathTermination::Other(owned(t))
    }
}

/// The break in the path that a leg makes: `FM` is vectors, `HF`/`HM` a
/// hold, `VA`/`VI` without a fix vectors, and nothing else breaks the path.
pub open spec fn spec_leg_discontinuity(leg: ProcedureLegMaterializationRecord) -> Option<
    ProcedureDiscontinuity,
> {
    let t = trimmed(leg.path_termination@);
    if t == "FM"@ {
        Some(ProcedureDiscontinuity::Vectors)
    } else if t == "HF"@ || t == "HM"@ {
        Some(ProcedureDiscontinuity::Hold)
    } else if (t == "VA"@ || t == "VI"@) && leg.nav_ref is None {
        Some(ProcedureDiscontinuity::Vectors)
    } else {
        None
    }
}

fn leg_discontinuity(leg: &ProcedureLegMaterializationRecord) -> (r: Option<ProcedureDiscontinuity>)
    ensures
        r == spec_leg_discontinuity(*leg),
{
    let t = trim(leg.path_termination.as_str());
    if str_eq(t, "FM") {
        Some(ProcedureDiscontinuity::Vectors)
    } else if str_eq(t, "HF") || str_eq(t, "HM") {
        Some(ProcedureDiscontinuity::Hold)
    } else if (str_eq(t, "VA") || str_eq(t, "VI")) && leg.nav_ref.is_none() {
        Some(ProcedureDiscontinuity::Vectors)
    } else {
        None
    }
}

/// The discontinuity that a procedure's last leg leaves after it.
pub fn terminal_procedure_discontinuity(leg: &ProcedureLegMaterializationRecord) -> (r: Option<
    ProcedureDiscontinuity,
>)
    ensures
        r == spec_leg_discontinuity(*leg),
{
    leg_discontinuity(leg)
}

/// The discontinuity that a procedure's first leg puts before it.
pub fn leading_procedure_discontinuity(leg: &ProcedureLegMaterializationRecord) -> (r: Option<
    ProcedureDiscontinuity,
>)
    ensures
        r == spec_leg_discontinuity(*leg),
{
    leg_discontinuity(leg)
}

} // verus!

verus! {

/// A leg coded as a hold (`HF` or `HM`, once trimmed) breaks the path with a
/// hold; of the codes read as heading to manual termination, `FM` breaks it
/// with vectors and every other one with a hold.
pub proof fn law_hold_codes_break_the_path_with_a_hold(leg: ProcedureLegMaterializationRecord)
    ensures
        trimmed(leg.path_termination@) == "HF"@ || trimmed(leg.path_termination@) == "HM"@
            ==> spec_leg_discontinuity(leg) == Some(ProcedureDiscontinuity::Hold),
        trimmed(leg.path_termination@) == "FM"@ ==> spec_leg_discontinuity(leg) == Some(
            ProcedureDiscontinuity::Vectors,
        ),
        leg_reads_path_termination(leg.path_termination@, PathTermination::HeadingToManual) ==> (
        spec_leg_discontinuity(leg) is Some),
        leg_reads_path_termination(leg.path_termination@, PathTermination::HeadingToManual)
            && trimmed(leg.path_termination@) != "FM"@ ==> spec_leg_discontinuity(leg) == Some(
            ProcedureDiscontinuity::Hold,
        ),
{
    reveal_strlit("FM");
    reveal_strlit("HF");
    reveal_strlit("HM");
    assert("HF"@[0] != "FM"@[0]);
    assert("HM"@[0] != "FM"@[0]);
}

} // verus!
