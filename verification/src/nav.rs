//! Navigation references: what a flight-plan row points at, and the keys and
//! labels that the flight plan shows for it.
use crate::text::{
    decimal, owned, padded_digits, push_char, push_decimal, push_padded_digits, push_str,
    str_eq,
};
use vstd::prelude::*;

verus! {

/// A position, in units of 1e-7 degree of latitude and longitude.
#[derive(Clone, Copy, Debug, PartialEq, Eq, Structural)]
pub struct LatLon {
    pub lat_e7: i64,
    pub lon_e7: i64,
}

/// An airport identifier.
#[derive(Clone, Debug, PartialEq, Eq)]
pub struct AirportId(pub String);

/// A navigation reference.
#[derive(Clone, Debug, PartialEq, Eq)]
pub enum NavRef {
    Airport(String),
    Navaid(String),
    ArincNavaid {
        identifier: String,
        icao_code: String,
        section_code: String,
        subsection_code: String,
    },
    TerminalNavaid {
        airport_id: String,
        identifier: String,
        icao_code: String,
        section_code: String,
        subsection_code: String,
    },
    Fix(String),
    LatLon(LatLon),
    Spot(LatLon),
}

/// Two references name the same thing: same variant, same text in each field.
pub open spec fn same_nav_ref(a: NavRef, b: NavRef) -> bool {
    match (a, b) {
        (NavRef::Airport(x), NavRef::Airport(y)) => x@ == y@,
        (NavRef::Navaid(x), NavRef::Navaid(y)) => x@ == y@,
        (
            NavRef::ArincNavaid {
                identifier: i1,
                icao_code: c1,
                section_code: s1,
                subsection_code: u1,
            },
            NavRef::ArincNavaid {
                identifier: i2,
                icao_code: c2,
                section_code: s2,
                subsection_code: u2,
            },
        ) => i1@ == i2@ && c1@ == c2@ && s1@ == s2@ && u1@ == u2@,
        (
            NavRef::TerminalNavaid {
                airport_id: a1,
                identifier: i1,
                icao_code: c1,
                section_code: s1,
                subsection_code: u1,
            },
            NavRef::TerminalNavaid {
                airport_id: a2,
                identifier: i2,
                icao_code: c2,
                section_code: s2,
                subsection_code: u2,
            },
        ) => a1@ == a2@ && i1@ == i2@ && c1@ == c2@ && s1@ == s2@ && u1@ == u2@,
        (NavRef::Fix(x), NavRef::Fix(y)) => x@ == y@,
        (NavRef::LatLon(x), NavRef::LatLon(y)) => x == y,
        (NavRef::Spot(x), NavRef::Spot(y)) => x == y,
        _ => false,
    }
}

/// Equality of two navigation references.
pub fn nav_ref_eq(a: &NavRef, b: &NavRef) -> (r: bool)
    ensures
        r == same_nav_ref(*a, *b),
{
    match (a, b) {
        (NavRef::Airport(x), NavRef::Airport(y)) => str_eq(x.as_str(), y.as_str()),
        (NavRef::Navaid(x), NavRef::Navaid(y)) => str_eq(x.as_str(), y.as_str()),
        (
            NavRef::ArincNavaid {
                identifier: i1,
                icao_code: c1,
                section_code: s1,
                subsection_code: u1,
            },
            NavRef::ArincNavaid {
                identifier: i2,
                icao_code: c2,
                section_code: s2,
                subsection_code: u2,
            },
        ) => str_eq(i1.as_str(), i2.as_str()) && str_eq(c1.as_str(), c2.as_str()) && str_eq(
            s1.as_str(),
            s2.as_str(),
        ) && str_eq(u1.as_str(), u2.as_str()),
        (
            NavRef::TerminalNavaid {
                airport_id: a1,
                identifier: i1,
                icao_code: c1,
                section_code: s1,
                subsection_code: u1,
            },
            NavRef::TerminalNavaid {
                airport_id: a2,
                identifier: i2,
                icao_code: c2,
                section_code: s2,
                subsection_code: u2,
            },
        ) => str_eq(a1.as_str(), a2.as_str()) && str_eq(i1.as_str(), i2.as_str()) && str_eq(
            c1.as_str(),
            c2.as_str(),
        ) && str_eq(s1.as_str(), s2.as_str()) && str_eq(u1.as_str(), u2.as_str()),
        (NavRef::Fix(x), NavRef::Fix(y)) => str_eq(x.as_str(), y.as_str()),
        (NavRef::LatLon(x), NavRef::LatLon(y)) => x.lat_e7 == y.lat_e7 && x.lon_e7 == y.lon_e7,
        (NavRef::Spot(x), NavRef::Spot(y)) => x.lat_e7 == y.lat_e7 && x.lon_e7 == y.lon_e7,
        _ => false,
    }
}

impl NavRef {
    /// A copy of this reference.
    pub fn duplicate(&self) -> (r: NavRef)
        ensures
            r == *self,
    {
        match self {
            NavRef::Airport(x) => NavRef::Airport(x.clone()),
            NavRef::Navaid(x) => NavRef::Navaid(x.clone()),
            NavRef::ArincNavaid { identifier, icao_code, section_code, subsection_code } => {
                NavRef::ArincNavaid {
                    identifier: identifier.clone(),
                    icao_code: icao_code.clone(),
                    section_code: section_code.clone(),
                    subsection_code: subsection_code.clone(),
                }
            },
            NavRef::TerminalNavaid {
                airport_id,
                identifier,
                icao_code,
                section_code,
                subsection_code,
            } => NavRef::TerminalNavaid {
                airport_id: airport_id.clone(),
                identifier: identifier.clone(),
                icao_code: icao_code.clone(),
                section_code: section_code.clone(),
                subsection_code: subsection_code.clone(),
            },
            NavRef::Fix(x) => NavRef::Fix(x.clone()),
            NavRef::LatLon(p) => NavRef::LatLon(*p),
            NavRef::Spot(p) => NavRef::Spot(*p),
        }
    }

    /// The airport code, for an airport reference.
    pub fn airport_code(&self) -> (r: Option<&str>)
        ensures
            match *self {
                NavRef::Airport(code) => r is Some && r->0@ == code@,
                _ => r is None,
            },
    {
        match self {
            NavRef::Airport(code) => Some(code.as_str()),
            _ => None,
        }
    }
}

/// A copy of an optional reference.
pub fn duplicate_nav_ref_opt(n: &Option<NavRef>) -> (r: Option<NavRef>)
    ensures
        r == *n,
{
    match n {
        Some(x) => Some(x.duplicate()),
        None => None,
    }
}

/// The airport id of an airport reference.
pub fn airport_id_from_nav_ref(nav_ref: &NavRef) -> (r: Option<String>)
    ensures
        match *nav_ref {
            NavRef::Airport(code) => r is Some && r->0@ == code@,
            _ => r is None,
        },
{
    match nav_ref {
        NavRef::Airport(code) => Some(code.clone()),
        _ => None,
    }
}

/// The magnitude of a signed coordinate.
pub open spec fn magnitude(v: i64) -> nat {
    if v < 0 {
        (-v) as nat
    } else {
        v as nat
    }
}

/// `-` for a negative value, nothing otherwise.
pub open spec fn sign_text(v: i64) -> Seq<char> {
    if v < 0 {
        seq!['-']
    } else {
        Seq::empty()
    }
}

/// A decimal with `places` fraction digits, for `m` counted in units of
/// `10^-places`, where `unit` is `10^places`.
pub open spec fn fixed_point(m: nat, unit: nat, places: nat) -> Seq<char> {
    decimal(m / unit) + seq!['.'] + padded_digits(m % unit, 10, places)
}

/// A coordinate with seven fraction digits (`{:.7}` of the degrees).
pub open spec fn coordinate7(v: i64) -> Seq<char> {
    sign_text(v) + fixed_point(magnitude(v), 10_000_000, 7)
}

/// A coordinate rounded to four fraction digits (`{:.4}` of the degrees),
/// halves rounded away from zero.
pub open spec fn coordinate4(v: i64) -> Seq<char> {
    sign_text(v) + fixed_point((magnitude(v) + 500) / 1000, 10_000, 4)
}

fn magnitude_u64(v: i64) -> (m: u64)
    ensures
        m as nat == magnitude(v),
{
    if v < 0 {
        (0i128 - v as i128) as u64
    } else {
        v as u64
    }
}

fn push_fixed_point(s: &mut String, m: u64, unit: u64, places: u64)
    requires
        unit > 0,
    ensures
        final(s)@ == old(s)@ + fixed_point(m as nat, unit as nat, places as nat),
{
    push_decimal(s, m / unit);
    push_char(s, '.');
    push_padded_digits(s, m % unit, 10, places);
    assert(final(s)@ =~= old(s)@ + fixed_point(m as nat, unit as nat, places as nat));
}

fn push_sign(s: &mut String, v: i64)
    ensures
        final(s)@ == old(s)@ + sign_text(v),
{
    if v < 0 {
        push_char(s, '-');
        assert(final(s)@ =~= old(s)@ + sign_text(v));
    } else {
        assert(old(s)@ + sign_text(v) =~= old(s)@);
    }
}

/// Appends `{:.7}` of a coordinate.
pub fn push_coordinate7(s: &mut String, v: i64)
    ensures
        final(s)@ == old(s)@ + coordinate7(v),
{
    push_sign(s, v);
    push_fixed_point(s, magnitude_u64(v), 10_000_000, 7);
    assert(final(s)@ =~= old(s)@ + coordinate7(v));
}

/// Appends `{:.4}` of a coordinate.
pub fn push_coordinate4(s: &mut String, v: i64)
    ensures
        final(s)@ == old(s)@ + coordinate4(v),
{
    push_sign(s, v);
    let m = magnitude_u64(v);
    assert(m <= 9_223_372_036_854_775_808u64);
    push_fixed_point(s, (m + 500) / 1000, 10_000, 4);
    assert(final(s)@ =~= old(s)@ + coordinate4(v));
}

/// `lat,lon`, each with four fraction digits.
pub open spec fn spec_spot_coordinates(p: LatLon) -> Seq<char> {
    coordinate4(p.lat_e7) + seq![','] + coordinate4(p.lon_e7)
}

/// The coordinates of a spot as the flight plan shows them.
pub fn format_spot_coordinates(position: LatLon) -> (r: String)
    ensures
        r@ == spec_spot_coordinates(position),
{
    let mut s = String::new();
    push_coordinate4(&mut s, position.lat_e7);
    push_char(&mut s, ',');
    push_coordinate4(&mut s, position.lon_e7);
    assert(s@ =~= spec_spot_coordinates(position));
    s
}

/// The label that the flight plan shows for a reference.
pub open spec fn spec_nav_ref_label(n: NavRef) -> Seq<char> {
    match n {
        NavRef::Airport(code) => code@,
        NavRef::Navaid(code) => code@,
        NavRef::Fix(code) => code@,
        NavRef::ArincNavaid { identifier, .. } => identifier@,
        NavRef::TerminalNavaid { identifier, .. } => identifier@,
        NavRef::LatLon(p) => spec_spot_coordinates(p),
        NavRef::Spot(p) => seq!['S', 'P', 'O', 'T', '\n'] + spec_spot_coordinates(p),
    }
}

/// The label of a reference: its identifier, or its coordinates.
pub fn nav_ref_label(nav_ref: &NavRef) -> (r: String)
    ensures
        r@ == spec_nav_ref_label(*nav_ref),
{
    match nav_ref {
        NavRef::Airport(code) => code.clone(),
        NavRef::Navaid(code) => code.clone(),
        NavRef::Fix(code) => code.clone(),
        NavRef::ArincNavaid { identifier, .. } => identifier.clone(),
        NavRef::TerminalNavaid { identifier, .. } => identifier.clone(),
        NavRef::LatLon(p) => format_spot_coordinates(*p),
        NavRef::Spot(p) => {
            let mut s = String::new();
            push_char(&mut s, 'S');
            push_char(&mut s, 'P');
            push_char(&mut s, 'O');
            push_char(&mut s, 'T');
            push_char(&mut s, '\n');
            let coords = format_spot_coordinates(*p);
            push_str(&mut s, coords.as_str());
            assert(s@ =~= spec_nav_ref_label(*nav_ref));
            s
        },
    }
}

/// `a:b` for a list of parts, separated by colons.
pub open spec fn colon_joined(parts: Seq<Seq<char>>) -> Seq<char>
    decreases parts.len(),
{
    if parts.len() == 0 {
        Seq::empty()
    } else if parts.len() == 1 {
        parts[0]
    } else {
        colon_joined(parts.drop_last()) + seq![':'] + parts.last()
    }
}

/// A key that tells references apart: a variant tag and the fields,
/// separated by colons.
pub open spec fn spec_nav_ref_key(n: NavRef) -> Seq<char> {
    match n {
        NavRef::Airport(id) => colon_joined(seq![seq!['a', 'i', 'r', 'p', 'o', 'r', 't'], id@]),
        NavRef::Navaid(id) => colon_joined(seq![seq!['n', 'a', 'v', 'a', 'i', 'd'], id@]),
        NavRef::ArincNavaid { identifier, icao_code, section_code, subsection_code } => colon_joined(
            seq![
                seq!['a', 'r', 'i', 'n', 'c', '-', 'n', 'a', 'v', 'a', 'i', 'd'],
                section_code@,
                subsection_code@,
                icao_code@,
                identifier@,
            ],
        ),
        NavRef::TerminalNavaid {
            airport_id,
            identifier,
            icao_code,
            section_code,
            subsection_code,
        } => colon_joined(
            seq![
                seq!['t', 'e', 'r', 'm', 'i', 'n', 'a', 'l', '-', 'n', 'a', 'v', 'a', 'i', 'd'],
                airport_id@,
                section_code@,
                subsection_code@,
                icao_code@,
                identifier@,
            ],
        ),
        NavRef::Fix(id) => colon_joined(seq![seq!['f', 'i', 'x'], id@]),
        NavRef::LatLon(p) => colon_joined(
            seq![seq!['l', 'a', 't', 'l', 'o', 'n'], coordinate7(p.lat_e7), coordinate7(p.lon_e7)],
        ),
        NavRef::Spot(p) => colon_joined(
            seq![seq!['s', 'p', 'o', 't'], coordinate7(p.lat_e7), coordinate7(p.lon_e7)],
        ),
    }
}

fn push_colon_part(s: &mut String, part: &str)
    ensures
        final(s)@ == old(s)@ + seq![':'] + part@,
{
    push_char(s, ':');
    push_str(s, part);
    assert(final(s)@ =~= old(s)@ + seq![':'] + part@);
}

/// The identity key of a reference.
pub fn nav_ref_key(nav_ref: &NavRef) -> (r: String)
    ensures
        r@ == spec_nav_ref_key(*nav_ref),
{
    proof {
        reveal_with_fuel(colon_joined, 7);
    }
    match nav_ref {
        NavRef::Airport(id) => {
            let mut s = owned("airport");
            proof {
                reveal_strlit("airport");
            }
            push_colon_part(&mut s, id.as_str());
            assert(s@ =~= spec_nav_ref_key(*nav_ref));
            s
        },
        NavRef::Navaid(id) => {
            let mut s = owned("navaid");
            proof {
                reveal_strlit("navaid");
            }
            push_colon_part(&mut s, id.as_str());
            assert(s@ =~= spec_nav_ref_key(*nav_ref));
            s
        },
        NavRef::ArincNavaid { identifier, icao_code, section_code, subsection_code } => {
            let mut s = owned("arinc-navaid");
            proof {
                reveal_strlit("arinc-navaid");
            }
            push_colon_part(&mut s, section_code.as_str());
            push_colon_part(&mut s, subsection_code.as_str());
            push_colon_part(&mut s, icao_code.as_str());
            push_colon_part(&mut s, identifier.as_str());
            assert(s@ =~= spec_nav_ref_key(*nav_ref));
            s
        },
        NavRef::TerminalNavaid {
            airport_id,
            identifier,
            icao_code,
            section_code,
            subsection_code,
        } => {
            let mut s = owned("terminal-navaid");
            proof {
                reveal_strlit("terminal-navaid");
            }
            push_colon_part(&mut s, airport_id.as_str());
            push_colon_part(&mut s, section_code.as_str());
            push_colon_part(&mut s, subsection_code.as_str());
            push_colon_part(&mut s, icao_code.as_str());
            push_colon_part(&mut s, identifier.as_str());
            assert(s@ =~= spec_nav_ref_key(*nav_ref));
            s
        },
        NavRef::Fix(id) => {
            let mut s = owned("fix");
            proof {
                reveal_strlit("fix");
            }
            push_colon_part(&mut s, id.as_str());
            assert(s@ =~= spec_nav_ref_key(*nav_ref));
            s
        },
        NavRef::LatLon(p) => {
            let mut s = owned("latlon");
            proof {
                reveal_strlit("latlon");
            }
            push_char(&mut s, ':');
            push_coordinate7(&mut s, p.lat_e7);
            push_char(&mut s, ':');
            push_coordinate7(&mut s, p.lon_e7);
            assert(s@ =~= spec_nav_ref_key(*nav_ref));
            s
        },
        NavRef::Spot(p) => {
            let mut s = owned("spot");
            proof {
                reveal_strlit("spot");
            }
            push_char(&mut s, ':');
            push_coordinate7(&mut s, p.lat_e7);
            push_char(&mut s, ':');
            push_coordinate7(&mut s, p.lon_e7);
            assert(s@ =~= spec_nav_ref_key(*nav_ref));
            s
        },
    }
}

} // verus!
