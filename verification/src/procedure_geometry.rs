//! Discrete decisions of procedure geometry: turn direction and position
//! coincidence.
use crate::nav::LatLon;
use crate::procedure_legs::ProcedureLegMaterializationRecord;
use crate::text::{str_eq, trim, trimmed};
use vstd::prelude::*;

verus! {

/// The turn of a course-to-fix leg: clockwise for `R`, counterclockwise for
/// `L`, unknown otherwise (the coded text trimmed; no text counts as empty).
pub open spec fn spec_cf_turn_direction(step: ProcedureLegMaterializationRecord) -> Option<bool> {
    let t = match step.turn_direction {
        Some(d) => trimmed(d@),
        None => Seq::empty(),
    };
    if t == "L"@ {
        Some(false)
    } else if t == "R"@ {
        Some(true)
    } else {
        None
    }
}

/// Whether a course-to-fix leg turns clockwise.
pub fn cf_turn_direction(step: &ProcedureLegMaterializationRecord) -> (r: Option<bool>)
    ensures
        r == spec_cf_turn_direction(*step),
{
    let t = match &step.turn_direction {
        Some(d) => trim(d.as_str()),
        None => {
            proof {
                reveal_strlit("");
                assert(""@ =~= Seq::<char>::empty());
            }
            ""
        },
    };
    if str_eq(t, "L") {
        Some(false)
    } else if str_eq(t, "R") {
        Some(true)
    } else {
        None
    }
}

/// Half a thousandth of a degree, in units of 1e-7 degree.
pub const POSITION_EPSILON_E7: i64 = 5000;

/// Whether two positions lie within half a thousandth of a degree of each
/// other in both latitude and longitude.
pub open spec fn spec_positions_nearly_equal(a: LatLon, b: LatLon) -> bool {
    -5000 < a.lat_e7 - b.lat_e7 < 5000 && -5000 < a.lon_e7 - b.lon_e7 < 5000
}

/// Whether two positions coincide for drawing purposes.
pub fn positions_nearly_equal_for_geometry(a: LatLon, b: LatLon) -> (r: bool)
    ensures
        r == spec_positions_nearly_equal(a, b),
{
    let dlat = a.lat_e7 as i128 - b.lat_e7 as i128;
    let dlon = a.lon_e7 as i128 - b.lon_e7 as i128;
    -(POSITION_EPSILON_E7 as i128) < dlat && dlat < POSITION_EPSILON_E7 as i128 && -(
    POSITION_EPSILON_E7 as i128) < dlon && dlon < POSITION_EPSILON_E7 as i128
}

} // verus!
