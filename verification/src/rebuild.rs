//! The resolved route rebuilt from its components: the legs kept for each
//! grouped component (airway or procedure), and the direct legs that bridge
//! each gap between one waypoint and the next.
use crate::flight_plan::{waypoint_leg_id, ProcedureLegProvenance, ResolvedLeg};
use crate::guidance::ResolvedLegSource;
use crate::nav::{nav_ref_eq, same_nav_ref, NavRef};
use crate::flight_plan::{uid_of, FlightPlan};
use crate::route::allocate_route_component_uid;
use crate::text::{str_is_empty, string_texts};
use crate::route::{AppError, AppErrorKind, ProcedureKind, RouteComponent};
use crate::sequencing::leg_from_component;
use crate::text::{decimal, owned, push_decimal, push_str, str_eq};
use vstd::prelude::*;

verus! {

/// A leg as the route sees it: its id text, its ends, where it comes from,
/// and its procedure provenance.
pub open spec fn leg_view(l: ResolvedLeg) -> (
    Seq<char>,
    NavRef,
    NavRef,
    ResolvedLegSource,
    Option<ProcedureLegProvenance>,
) {
    (l.id@, l.from, l.to, l.source, l.procedure_provenance)
}

/// The views of a list of legs.
pub open spec fn leg_views(legs: Seq<ResolvedLeg>) -> Seq<
    (Seq<char>, NavRef, NavRef, ResolvedLegSource, Option<ProcedureLegProvenance>),
> {
    legs.map_values(|l: ResolvedLeg| leg_view(l))
}

/// The legs kept for component `c`; none when it keeps no list.
pub open spec fn grouped_at(grouped: Seq<Option<Vec<ResolvedLeg>>>, c: int) -> Seq<ResolvedLeg> {
    if 0 <= c < grouped.len() {
        match grouped[c] {
            Some(v) => v@,
            None => Seq::empty(),
        }
    } else {
        Seq::empty()
    }
}

/// Rebuilding, part way: the legs so far, the waypoint (and its component)
/// that a next leg would start from, and how many bridges were made.
pub type RebuildState = (
    Seq<(Seq<char>, NavRef, NavRef, ResolvedLegSource, Option<ProcedureLegProvenance>)>,
    Option<(usize, NavRef)>,
    nat,
);

/// A direct leg from the previous waypoint to `to`, unless there is no
/// previous waypoint or it is `to` itself. Bridges are numbered in order.
pub open spec fn bridged(state: RebuildState, to_component: usize, to: NavRef) -> RebuildState {
    match state.1 {
        None => state,
        Some(previous) => if same_nav_ref(previous.1, to) {
            state
        } else {
            (
                state.0.push(
                    (
                        waypoint_leg_id(state.2 as int),
                        previous.1,
                        to,
                        ResolvedLegSource::SyntheticBridge {
                            from_component_index: previous.0,
                            to_component_index: to_component,
                        },
                        None,
                    ),
                ),
                state.1,
                state.2 + 1,
            )
        },
    }
}

/// A departure that starts at the airport the route was at.
pub open spec fn departs_from_previous(c: RouteComponent, previous: Option<(usize, NavRef)>) -> bool {
    match c {
        RouteComponent::Procedure { procedure } => procedure.kind == ProcedureKind::Sid && match previous {
            Some(p) => match p.1 {
                NavRef::Airport(origin) => procedure.airport_id.0@ == origin@,
                _ => false,
            },
            None => false,
        },
        _ => false,
    }
}

/// A procedure that ends in a discontinuity.
pub open spec fn ends_in_discontinuity(c: RouteComponent) -> bool {
    match c {
        RouteComponent::Procedure { procedure } => procedure.terminal_discontinuity is Some,
        _ => false,
    }
}

/// Rebuilding component `k`. A component with kept legs gets them, after a
/// bridge from the previous waypoint to their start (none for a departure
/// from the airport the route was at); the route then continues from their
/// end, or from nowhere after a procedure that ends in a discontinuity. A
/// waypoint is bridged to, unless the next component is the same waypoint;
/// an airway is bridged to its entry and through to its exit; a procedure
/// without kept legs only breaks the route when it ends in a discontinuity.
pub open spec fn rebuild_step(
    cs: Seq<RouteComponent>,
    grouped: Seq<Option<Vec<ResolvedLeg>>>,
    k: int,
    state: RebuildState,
) -> RebuildState {
    let kept = grouped_at(grouped, k);
    if kept.len() > 0 {
        let s1 = if departs_from_previous(cs[k], state.1) {
            state
        } else {
            bridged(state, k as usize, kept[0].from)
        };
        (
            s1.0 + leg_views(kept),
            if ends_in_discontinuity(cs[k]) {
                None
            } else {
                Some((k as usize, kept.last().to))
            },
            s1.2,
        )
    } else {
        match cs[k] {
            RouteComponent::Waypoint { waypoint } => {
                let repeated = k + 1 < cs.len() && match cs[k + 1] {
                    RouteComponent::Waypoint { waypoint: next } => same_nav_ref(next, waypoint),
                    _ => false,
                };
                if repeated {
                    state
                } else {
                    let s1 = bridged(state, k as usize, waypoint);
                    (s1.0, Some((k as usize, waypoint)), s1.2)
                }
            },
            RouteComponent::Airway { airway } => {
                let s1 = bridged(state, k as usize, airway.entry);
                let s2 = bridged(
                    (s1.0, Some((k as usize, airway.entry)), s1.2),
                    k as usize,
                    airway.exit,
                );
                (s2.0, Some((k as usize, airway.exit)), s2.2)
            },
            RouteComponent::Procedure { procedure } => if procedure.terminal_discontinuity is Some {
                (state.0, None, state.2)
            } else {
                state
            },
        }
    }
}

/// Rebuilding the first `k` components.
pub open spec fn rebuild_upto(
    cs: Seq<RouteComponent>,
    grouped: Seq<Option<Vec<ResolvedLeg>>>,
    k: int,
) -> RebuildState
    decreases k,
{
    if k <= 0 {
        (Seq::empty(), None, 0)
    } else {
        rebuild_step(cs, grouped, k - 1, rebuild_upto(cs, grouped, k - 1))
    }
}

/// Adds the direct leg from the previous waypoint to `to`, if needed.
fn push_synthetic_bridge_if_needed(
    resolved: &mut Vec<ResolvedLeg>,
    synthetic_leg_index: &mut usize,
    previous_waypoint: &Option<(usize, NavRef)>,
    to_component_index: usize,
    to: &NavRef,
)
    requires
        *old(synthetic_leg_index) < usize::MAX,
    ensures
        (leg_views(final(resolved)@), *previous_waypoint, *final(synthetic_leg_index) as nat)
            == bridged(
            (leg_views(old(resolved)@), *previous_waypoint, *old(synthetic_leg_index) as nat),
            to_component_index,
            *to,
        ),
{
    let (from_component_index, from) = match previous_waypoint {
        Some(p) => (p.0, &p.1),
        None => return ,
    };
    if nav_ref_eq(from, to) {
        return ;
    }
    let mut id = owned("component-");
    push_decimal(&mut id, *synthetic_leg_index as u64);
    push_str(&mut id, "-");
    push_decimal(&mut id, (*synthetic_leg_index + 1) as u64);
    let ghost before = resolved@;
    resolved.push(
        ResolvedLeg {
            id,
            from: from.duplicate(),
            to: to.duplicate(),
            source: ResolvedLegSource::SyntheticBridge { from_component_index, to_component_index },
            procedure_provenance: None,
        },
    );
    assert(leg_views(resolved@) =~= leg_views(before).push(leg_view(resolved@.last())));
    *synthetic_leg_index = *synthetic_leg_index + 1;
}

/// Whether a departure starts at the airport the route was at.
fn departs_from(component: &RouteComponent, previous: &Option<(usize, NavRef)>) -> (r: bool)
    ensures
        r == departs_from_previous(*component, *previous),
{
    match (component, previous) {
        (RouteComponent::Procedure { procedure }, Some(p)) => match &p.1 {
            NavRef::Airport(origin) => procedure.kind == ProcedureKind::Sid && str_eq(
                procedure.airport_id.0.as_str(),
                origin.as_str(),
            ),
            _ => false,
        },
        _ => false,
    }
}

/// The resolved route rebuilt from `components`, keeping the legs listed
/// for each grouped component in `grouped_component_legs`, indexed by
/// component.
pub fn rebuild_resolved_legs_with_grouped_components(
    components: &Vec<RouteComponent>,
    grouped_component_legs: &Vec<Option<Vec<ResolvedLeg>>>,
) -> (r: Vec<ResolvedLeg>)
    requires
        components.len() < usize::MAX / 2,
    ensures
        leg_views(r@) == rebuild_upto(
            components@,
            grouped_component_legs@,
            components.len() as int,
        ).0,
{
    let ghost cs = components@;
    let ghost grouped = grouped_component_legs@;
    let mut resolved: Vec<ResolvedLeg> = Vec::new();
    let mut previous_waypoint: Option<(usize, NavRef)> = None;
    let mut synthetic_leg_index: usize = 0;
    let mut k: usize = 0;
    assert(leg_views(resolved@) =~= Seq::empty());
    while k < components.len()
        invariant
            cs == components@,
            grouped == grouped_component_legs@,
            components.len() < usize::MAX / 2,
            k <= cs.len(),
            (leg_views(resolved@), previous_waypoint, synthetic_leg_index as nat) == rebuild_upto(
                cs,
                grouped,
                k as int,
            ),
            synthetic_leg_index <= 2 * k,
        decreases cs.len() - k,
    {
        let component = &components[k];
        let has_kept = k < grouped_component_legs.len() && match &grouped_component_legs[k] {
            Some(legs) => legs.len() > 0,
            None => false,
        };
        if has_kept {
            let kept = grouped_component_legs[k].as_ref().unwrap();
            assert(kept@ == grouped_at(grouped, k as int));
            if !departs_from(component, &previous_waypoint) {
                push_synthetic_bridge_if_needed(
                    &mut resolved,
                    &mut synthetic_leg_index,
                    &previous_waypoint,
                    k,
                    &kept[0].from,
                );
            }
            let ghost base = leg_views(resolved@);
            let mut j: usize = 0;
            while j < kept.len()
                invariant
                    j <= kept.len(),
                    leg_views(resolved@) == base + leg_views(kept@.take(j as int)),
                decreases kept.len() - j,
            {
                let ghost prev = resolved@;
                resolved.push(kept[j].duplicate());
                assert(leg_views(resolved@) =~= leg_views(prev).push(leg_view(kept@[j as int])));
                assert(leg_views(kept@.take(j + 1)) =~= leg_views(kept@.take(j as int)).push(
                    leg_view(kept@[j as int]),
                ));
                assert(leg_views(resolved@) =~= base + leg_views(kept@.take(j + 1)));
                j = j + 1;
            }
            assert(kept@.take(kept.len() as int) =~= kept@);
            let ends = match component {
                RouteComponent::Procedure { procedure } => procedure.terminal_discontinuity.is_some(),
                _ => false,
            };
            previous_waypoint = if ends {
                None
            } else {
                Some((k, kept[kept.len() - 1].to.duplicate()))
            };
        } else {
            match component {
                RouteComponent::Waypoint { waypoint } => {
                    let repeated = k + 1 < components.len() && match &components[k + 1] {
                        RouteComponent::Waypoint { waypoint: next } => nav_ref_eq(next, waypoint),
                        _ => false,
                    };
                    if !repeated {
                        push_synthetic_bridge_if_needed(
                            &mut resolved,
                            &mut synthetic_leg_index,
                            &previous_waypoint,
                            k,
                            waypoint,
                        );
                        previous_waypoint = Some((k, waypoint.duplicate()));
                    }
                },
                RouteComponent::Airway { airway } => {
                    push_synthetic_bridge_if_needed(
                        &mut resolved,
                        &mut synthetic_leg_index,
                        &previous_waypoint,
                        k,
                        &airway.entry,
                    );
                    let entry = Some((k, airway.entry.duplicate()));
                    push_synthetic_bridge_if_needed(
                        &mut resolved,
                        &mut synthetic_leg_index,
                        &entry,
                        k,
                        &airway.exit,
                    );
                    previous_waypoint = Some((k, airway.exit.duplicate()));
                },
                RouteComponent::Procedure { procedure } => {
                    if procedure.terminal_discontinuity.is_some() {
                        previous_waypoint = None;
                    }
                },
            }
        }
        k = k + 1;
    }
    resolved
}

/// The legs resolved from component `c` itself, in route order.
pub open spec fn legs_of_component(legs: Seq<ResolvedLeg>, c: int) -> Seq<ResolvedLeg>
    decreases legs.len(),
{
    if legs.len() == 0 {
        Seq::empty()
    } else {
        let before = legs_of_component(legs.drop_last(), c);
        if leg_from_component(legs.last(), c) {
            before.push(legs.last())
        } else {
            before
        }
    }
}

/// The legs that a component of the route keeps when the route is rebuilt:
/// those resolved from it, for a component that is not a single waypoint and
/// has any.
pub open spec fn spec_grouped_legs(plan: FlightPlan, c: int) -> Option<Seq<ResolvedLeg>> {
    let legs = legs_of_component(plan.resolved_legs@, c);
    if !(plan.route_components@[c] is Waypoint) && legs.len() > 0 {
        Some(legs)
    } else {
        None
    }
}

/// The legs resolved from component `c` itself.
fn legs_of_component_exec(legs: &Vec<ResolvedLeg>, c: usize) -> (r: Vec<ResolvedLeg>)
    ensures
        r@ == legs_of_component(legs@, c as int),
{
    let mut r: Vec<ResolvedLeg> = Vec::new();
    let mut i: usize = 0;
    while i < legs.len()
        invariant
            i <= legs.len(),
            r@ == legs_of_component(legs@.take(i as int), c as int),
        decreases legs.len() - i,
    {
        assert(legs@.take(i + 1).drop_last() =~= legs@.take(i as int));
        let from_c = match legs[i].source {
            ResolvedLegSource::RouteComponent { component_index } => component_index == c,
            ResolvedLegSource::SyntheticBridge { .. } => false,
        };
        if from_c {
            r.push(legs[i].duplicate());
        }
        i = i + 1;
    }
    assert(legs@.take(legs.len() as int) =~= legs@);
    r
}

/// For each component of the route, the legs it keeps when the route is
/// rebuilt.
pub fn grouped_component_legs(plan: &FlightPlan) -> (r: Vec<Option<Vec<ResolvedLeg>>>)
    ensures
        r.len() == plan.route_components.len(),
        forall|c: int|
            0 <= c < r.len() ==> match #[trigger] r@[c] {
                Some(v) => spec_grouped_legs(*plan, c) == Some(v@),
                None => spec_grouped_legs(*plan, c) is None,
            },
{
    let mut r: Vec<Option<Vec<ResolvedLeg>>> = Vec::new();
    let mut c: usize = 0;
    while c < plan.route_components.len()
        invariant
            c <= plan.route_components.len(),
            r.len() == c,
            forall|k: int|
                0 <= k < c ==> match #[trigger] r@[k] {
                    Some(v) => spec_grouped_legs(*plan, k) == Some(v@),
                    None => spec_grouped_legs(*plan, k) is None,
                },
        decreases plan.route_components.len() - c,
    {
        let entry = if plan.route_components[c].is_waypoint() {
            None
        } else {
            let legs = legs_of_component_exec(&plan.resolved_legs, c);
            if legs.len() > 0 {
                Some(legs)
            } else {
                None
            }
        };
        r.push(entry);
        c = c + 1;
    }
    r
}

/// The legs with their source set to component `component_index`.
pub fn rewrite_grouped_legs_source(legs: &Vec<ResolvedLeg>, component_index: usize) -> (r: Vec<
    ResolvedLeg,
>)
    ensures
        r.len() == legs.len(),
        forall|i: int|
            0 <= i < r.len() ==> #[trigger] r@[i] == (ResolvedLeg {
                source: ResolvedLegSource::RouteComponent { component_index },
                ..legs@[i]
            }),
{
    let mut r: Vec<ResolvedLeg> = Vec::new();
    let mut i: usize = 0;
    while i < legs.len()
        invariant
            i <= legs.len(),
            r.len() == i,
            forall|k: int|
                0 <= k < i ==> #[trigger] r@[k] == (ResolvedLeg {
                    source: ResolvedLegSource::RouteComponent { component_index },
                    ..legs@[k]
                }),
        decreases legs.len() - i,
    {
        let mut leg = legs[i].duplicate();
        leg.source = ResolvedLegSource::RouteComponent { component_index };
        r.push(leg);
        i = i + 1;
    }
    r
}

/// The ids of the legs, among `views`, that were resolved from component
/// `c` itself.
pub open spec fn view_ids_from(
    views: Seq<(Seq<char>, NavRef, NavRef, ResolvedLegSource, Option<ProcedureLegProvenance>)>,
    c: int,
) -> Seq<Seq<char>>
    decreases views.len(),
{
    if views.len() == 0 {
        Seq::empty()
    } else {
        let before = view_ids_from(views.drop_last(), c);
        if views.last().3 == (ResolvedLegSource::RouteComponent { component_index: c as usize })
            && 0 <= c <= usize::MAX {
            before.push(views.last().0)
        } else {
            before
        }
    }
}

/// The ids of the legs kept for component `c`.
pub open spec fn kept_ids(grouped: Seq<Option<Vec<ResolvedLeg>>>, c: int) -> Seq<Seq<char>> {
    grouped_at(grouped, c).map_values(|l: ResolvedLeg| l.id@)
}

/// Component `c` keeps no list, or the route has exactly its kept legs, in
/// order, as the legs resolved from it.
pub open spec fn preserved_at(
    grouped: Seq<Option<Vec<ResolvedLeg>>>,
    views: Seq<(Seq<char>, NavRef, NavRef, ResolvedLegSource, Option<ProcedureLegProvenance>)>,
    c: int,
) -> bool {
    grouped[c] is None || view_ids_from(views, c) == kept_ids(grouped, c)
}

/// The first of the first `n` components whose kept legs the route does not
/// have as they were.
pub open spec fn first_unpreserved(
    grouped: Seq<Option<Vec<ResolvedLeg>>>,
    views: Seq<(Seq<char>, NavRef, NavRef, ResolvedLegSource, Option<ProcedureLegProvenance>)>,
    n: int,
) -> Option<int>
    decreases n,
{
    if n <= 0 {
        None
    } else {
        match first_unpreserved(grouped, views, n - 1) {
            Some(c) => Some(c),
            None => if preserved_at(grouped, views, n - 1) {
                None
            } else {
                Some(n - 1)
            },
        }
    }
}

/// The text of a list of strings in std's `Debug` form.
pub uninterp spec fn debug_text_list(texts: Seq<Seq<char>>) -> Seq<char>;

/// std's `Debug` formatting of a list of strings, `format!("{:?}", texts)`:
/// the strings quoted and escaped, between brackets, separated by commas.
/// The contract names the text and says no more of it.
#[verifier::external_body]
fn debug_list(texts: &Vec<&str>) -> (r: String)
    ensures
        r@ == debug_text_list(texts@.map_values(|t: &str| t@)),
{
    format!("{:?}", texts)
}

/// The ids of the legs resolved from component `c` itself.
fn ids_from_component<'a>(legs: &'a Vec<ResolvedLeg>, c: usize) -> (r: Vec<&'a str>)
    ensures
        r@.map_values(|t: &str| t@) == view_ids_from(leg_views(legs@), c as int),
{
    let mut r: Vec<&str> = Vec::new();
    let mut i: usize = 0;
    while i < legs.len()
        invariant
            i <= legs.len(),
            r@.map_values(|t: &str| t@) == view_ids_from(leg_views(legs@.take(i as int)), c as int),
        decreases legs.len() - i,
    {
        assert(leg_views(legs@.take(i + 1)).drop_last() =~= leg_views(legs@.take(i as int)));
        let from_c = match legs[i].source {
            ResolvedLegSource::RouteComponent { component_index } => component_index == c,
            ResolvedLegSource::SyntheticBridge { .. } => false,
        };
        let ghost before = r@;
        if from_c {
            r.push(legs[i].id.as_str());
            assert(r@.map_values(|t: &str| t@) =~= before.map_values(|t: &str| t@).push(
                legs@[i as int].id@,
            ));
        }
        i = i + 1;
    }
    assert(legs@.take(legs.len() as int) =~= legs@);
    r
}

/// The ids of a list of legs.
fn ids_of<'a>(legs: &'a Vec<ResolvedLeg>) -> (r: Vec<&'a str>)
    ensures
        r@.map_values(|t: &str| t@) == legs@.map_values(|l: ResolvedLeg| l.id@),
{
    let mut r: Vec<&str> = Vec::new();
    let mut i: usize = 0;
    while i < legs.len()
        invariant
            i <= legs.len(),
            r@.map_values(|t: &str| t@) == legs@.take(i as int).map_values(|l: ResolvedLeg| l.id@),
        decreases legs.len() - i,
    {
        let ghost before = r@;
        r.push(legs[i].id.as_str());
        assert(r@.map_values(|t: &str| t@) =~= before.map_values(|t: &str| t@).push(
            legs@[i as int].id@,
        ));
        assert(legs@.take(i + 1).map_values(|l: ResolvedLeg| l.id@) =~= legs@.take(
            i as int,
        ).map_values(|l: ResolvedLeg| l.id@).push(legs@[i as int].id@));
        i = i + 1;
    }
    assert(legs@.take(legs.len() as int) =~= legs@);
    r
}

/// Whether two lists of texts are equal.
fn same_texts(a: &Vec<&str>, b: &Vec<&str>) -> (r: bool)
    ensures
        r == (a@.map_values(|t: &str| t@) == b@.map_values(|t: &str| t@)),
{
    if a.len() != b.len() {
        assert(a@.map_values(|t: &str| t@).len() != b@.map_values(|t: &str| t@).len());
        return false;
    }
    let mut i: usize = 0;
    while i < a.len()
        invariant
            i <= a.len(),
            a.len() == b.len(),
            forall|k: int| 0 <= k < i ==> a@[k]@ == b@[k]@,
        decreases a.len() - i,
    {
        if !str_eq(a[i], b[i]) {
            assert(a@.map_values(|t: &str| t@)[i as int] != b@.map_values(|t: &str| t@)[i as int]);
            return false;
        }
        i = i + 1;
    }
    assert(a@.map_values(|t: &str| t@) =~= b@.map_values(|t: &str| t@));
    true
}

/// Checks that the rebuilt route has each component's kept legs exactly, in
/// order, as the legs resolved from that component; reports the first
/// component for which it does not.
pub fn validate_preserved_grouped_leg_order(
    grouped_component_legs: &Vec<Option<Vec<ResolvedLeg>>>,
    resolved_legs: &Vec<ResolvedLeg>,
) -> (r: Result<(), AppError>)
    ensures
        match first_unpreserved(
            grouped_component_legs@,
            leg_views(resolved_legs@),
            grouped_component_legs.len() as int,
        ) {
            None => r is Ok,
            Some(c) => r matches Err(e) && e.kind == AppErrorKind::InvalidFlightPlan
                && e.message@ == "route rebuild did not preserve grouped legs for component "@
                + decimal(c as nat) + ": expected "@ + debug_text_list(
                kept_ids(grouped_component_legs@, c),
            ) + ", got "@ + debug_text_list(
                view_ids_from(leg_views(resolved_legs@), c),
            ),
        },
{
    let ghost grouped = grouped_component_legs@;
    let ghost views = leg_views(resolved_legs@);
    let mut c: usize = 0;
    while c < grouped_component_legs.len()
        invariant
            grouped == grouped_component_legs@,
            views == leg_views(resolved_legs@),
            c <= grouped.len(),
            first_unpreserved(grouped, views, c as int) is None,
        decreases grouped.len() - c,
    {
        match &grouped_component_legs[c] {
            Some(expected_legs) => {
                let actual = ids_from_component(resolved_legs, c);
                let expected = ids_of(expected_legs);
                assert(kept_ids(grouped, c as int) == expected_legs@.map_values(
                    |l: ResolvedLeg| l.id@,
                ));
                if !same_texts(&actual, &expected) {
                    let mut message = owned(
                        "route rebuild did not preserve grouped legs for component ",
                    );
                    push_decimal(&mut message, c as u64);
                    push_str(&mut message, ": expected ");
                    let expected_text = debug_list(&expected);
                    push_str(&mut message, expected_text.as_str());
                    push_str(&mut message, ", got ");
                    let actual_text = debug_list(&actual);
                    push_str(&mut message, actual_text.as_str());
                    proof {
                        lemma_first_unpreserved_after(grouped, views, c as int + 1, c as int);
                    }
                    return Err(AppError { kind: AppErrorKind::InvalidFlightPlan, message });
                }
            },
            None => {},
        }
        c = c + 1;
    }
    Ok(())
}

/// Once a component is found, further components do not change the first
/// one found.
proof fn lemma_first_unpreserved_after(
    grouped: Seq<Option<Vec<ResolvedLeg>>>,
    views: Seq<(Seq<char>, NavRef, NavRef, ResolvedLegSource, Option<ProcedureLegProvenance>)>,
    n: int,
    c: int,
)
    requires
        0 <= c < n,
        first_unpreserved(grouped, views, n) == Some(c),
    ensures
        forall|m: int|
            n <= m ==> #[trigger] first_unpreserved(grouped, views, m) == Some(c),
{
    assert forall|m: int| n <= m implies #[trigger] first_unpreserved(grouped, views, m) == Some(
        c,
    ) by {
        lemma_first_unpreserved_stable(grouped, views, n, m, c);
    }
}

proof fn lemma_first_unpreserved_stable(
    grouped: Seq<Option<Vec<ResolvedLeg>>>,
    views: Seq<(Seq<char>, NavRef, NavRef, ResolvedLegSource, Option<ProcedureLegProvenance>)>,
    n: int,
    m: int,
    c: int,
)
    requires
        0 <= c < n <= m,
        first_unpreserved(grouped, views, n) == Some(c),
    ensures
        first_unpreserved(grouped, views, m) == Some(c),
    decreases m - n,
{
    if m > n {
        lemma_first_unpreserved_stable(grouped, views, n, m - 1, c);
    }
}

/// Every component's kept legs give that component as their source.
pub open spec fn kept_legs_sourced(grouped: Seq<Option<Vec<ResolvedLeg>>>) -> bool {
    forall|c: int, j: int|
        0 <= c < grouped.len() && 0 <= j < grouped_at(grouped, c).len() ==> (#[trigger] grouped_at(
            grouped,
            c,
        )[j]).source == (ResolvedLegSource::RouteComponent { component_index: c as usize })
}

proof fn lemma_view_ids_concat(
    a: Seq<(Seq<char>, NavRef, NavRef, ResolvedLegSource, Option<ProcedureLegProvenance>)>,
    b: Seq<(Seq<char>, NavRef, NavRef, ResolvedLegSource, Option<ProcedureLegProvenance>)>,
    c: int,
)
    ensures
        view_ids_from(a + b, c) == view_ids_from(a, c) + view_ids_from(b, c),
    decreases b.len(),
{
    if b.len() == 0 {
        assert(a + b =~= a);
        assert(view_ids_from(a, c) + view_ids_from(b, c) =~= view_ids_from(a, c));
    } else {
        lemma_view_ids_concat(a, b.drop_last(), c);
        assert((a + b).drop_last() =~= a + b.drop_last());
        assert((a + b).last() == b.last());
        let ab = view_ids_from(a, c) + view_ids_from(b.drop_last(), c);
        if b.last().3 == (ResolvedLegSource::RouteComponent { component_index: c as usize }) && 0
            <= c <= usize::MAX {
            assert(ab.push(b.last().0) =~= view_ids_from(a, c) + view_ids_from(
                b.drop_last(),
                c,
            ).push(b.last().0));
        }
    }
}

proof fn lemma_bridged_ids(state: RebuildState, to_component: usize, to: NavRef, c: int)
    ensures
        view_ids_from(bridged(state, to_component, to).0, c) == view_ids_from(state.0, c),
{
    let after = bridged(state, to_component, to).0;
    if after.len() != state.0.len() {
        assert(after.drop_last() =~= state.0);
    }
}

proof fn lemma_kept_ids(kept: Seq<ResolvedLeg>, k: int, c: int)
    requires
        0 <= k <= usize::MAX,
        forall|j: int|
            0 <= j < kept.len() ==> (#[trigger] kept[j]).source == (ResolvedLegSource::RouteComponent {
                component_index: k as usize,
            }),
    ensures
        view_ids_from(leg_views(kept), c) == if c == k {
            kept.map_values(|l: ResolvedLeg| l.id@)
        } else {
            Seq::empty()
        },
    decreases kept.len(),
{
    if kept.len() == 0 {
        assert(leg_views(kept) =~= Seq::empty());
        if c == k {
            assert(kept.map_values(|l: ResolvedLeg| l.id@) =~= Seq::empty());
        }
    } else {
        lemma_kept_ids(kept.drop_last(), k, c);
        assert(leg_views(kept).drop_last() =~= leg_views(kept.drop_last()));
        if c == k {
            assert(kept.map_values(|l: ResolvedLeg| l.id@) =~= kept.drop_last().map_values(
                |l: ResolvedLeg| l.id@,
            ).push(kept.last().id@));
        }
    }
}

proof fn lemma_step_ids(
    cs: Seq<RouteComponent>,
    grouped: Seq<Option<Vec<ResolvedLeg>>>,
    k: int,
    state: RebuildState,
    c: int,
)
    requires
        kept_legs_sourced(grouped),
        0 <= k < cs.len(),
        cs.len() <= usize::MAX,
    ensures
        view_ids_from(rebuild_step(cs, grouped, k, state).0, c) == view_ids_from(state.0, c) + if c
            == k {
            kept_ids(grouped, k)
        } else {
            Seq::empty()
        },
{
    let kept = grouped_at(grouped, k);
    if kept.len() > 0 {
        let s1 = if departs_from_previous(cs[k], state.1) {
            state
        } else {
            bridged(state, k as usize, kept[0].from)
        };
        lemma_bridged_ids(state, k as usize, kept[0].from, c);
        lemma_view_ids_concat(s1.0, leg_views(kept), c);
        assert forall|j: int| 0 <= j < kept.len() implies (#[trigger] kept[j]).source == (
        ResolvedLegSource::RouteComponent { component_index: k as usize }) by {
            assert(grouped_at(grouped, k)[j] == kept[j]);
        }
        lemma_kept_ids(kept, k, c);
        if c != k {
            assert(view_ids_from(s1.0, c) + Seq::<Seq<char>>::empty() =~= view_ids_from(s1.0, c));
        }
    } else {
        if c == k {
            assert(kept_ids(grouped, k) =~= Seq::empty());
        }
        assert(view_ids_from(state.0, c) + Seq::<Seq<char>>::empty() =~= view_ids_from(state.0, c));
        match cs[k] {
            RouteComponent::Waypoint { waypoint } => {
                lemma_bridged_ids(state, k as usize, waypoint, c);
            },
            RouteComponent::Airway { airway } => {
                let s1 = bridged(state, k as usize, airway.entry);
                lemma_bridged_ids(state, k as usize, airway.entry, c);
                lemma_bridged_ids(
                    (s1.0, Some((k as usize, airway.entry)), s1.2),
                    k as usize,
                    airway.exit,
                    c,
                );
            },
            RouteComponent::Procedure { .. } => {},
        }
    }
}

proof fn lemma_rebuild_ids(
    cs: Seq<RouteComponent>,
    grouped: Seq<Option<Vec<ResolvedLeg>>>,
    n: int,
    c: int,
)
    requires
        kept_legs_sourced(grouped),
        0 <= n <= cs.len(),
        cs.len() <= usize::MAX,
    ensures
        view_ids_from(rebuild_upto(cs, grouped, n).0, c) == if 0 <= c < n {
            kept_ids(grouped, c)
        } else {
            Seq::empty()
        },
    decreases n,
{
    if n == 0 {
        assert(rebuild_upto(cs, grouped, 0).0 =~= Seq::empty());
    } else {
        lemma_rebuild_ids(cs, grouped, n - 1, c);
        lemma_step_ids(cs, grouped, n - 1, rebuild_upto(cs, grouped, n - 1), c);
        if c == n - 1 {
            assert(Seq::<Seq<char>>::empty() + kept_ids(grouped, c) =~= kept_ids(grouped, c));
        } else {
            assert(view_ids_from(rebuild_upto(cs, grouped, n - 1).0, c) + Seq::<Seq<char>>::empty()
                =~= view_ids_from(rebuild_upto(cs, grouped, n - 1).0, c));
        }
    }
}

/// Rebuilding the route keeps each component's kept legs: when kept legs
/// give their own component as their source, the rebuilt route has exactly
/// those legs, in order, as the legs resolved from that component, so the
/// check of preserved legs finds nothing.
pub proof fn law_rebuild_keeps_grouped_legs(
    cs: Seq<RouteComponent>,
    grouped: Seq<Option<Vec<ResolvedLeg>>>,
)
    requires
        kept_legs_sourced(grouped),
        grouped.len() <= cs.len(),
        cs.len() <= usize::MAX,
    ensures
        first_unpreserved(grouped, rebuild_upto(cs, grouped, cs.len() as int).0, grouped.len() as int)
            is None,
{
    let views = rebuild_upto(cs, grouped, cs.len() as int).0;
    assert forall|c: int| 0 <= c < grouped.len() implies preserved_at(grouped, views, c) by {
        lemma_rebuild_ids(cs, grouped, cs.len() as int, c);
    }
    lemma_none_unpreserved(grouped, views, grouped.len() as int);
}

proof fn lemma_none_unpreserved(
    grouped: Seq<Option<Vec<ResolvedLeg>>>,
    views: Seq<(Seq<char>, NavRef, NavRef, ResolvedLegSource, Option<ProcedureLegProvenance>)>,
    n: int,
)
    requires
        n <= grouped.len(),
        forall|c: int| 0 <= c < n ==> preserved_at(grouped, views, c),
    ensures
        first_unpreserved(grouped, views, n) is None,
    decreases n,
{
    if n > 0 {
        lemma_none_unpreserved(grouped, views, n - 1);
    }
}

/// A component of a route being rebuilt: the uid it had, if it was in the
/// route before, the component, and the legs it keeps, if any.
pub struct RebuiltRouteComponent {
    pub uid: Option<String>,
    pub component: RouteComponent,
    pub preserved_legs: Option<Vec<ResolvedLeg>>,
}

/// The uids that the first `n` rebuilt components get, and the counter after
/// them: a component keeps its old uid when that is not empty and no earlier
/// component has it; otherwise it gets the uid of the counter, which moves
/// on.
pub open spec fn materialized_uids(rs: Seq<RebuiltRouteComponent>, n: nat, counter: int) -> (
    Seq<Seq<char>>,
    int,
)
    decreases n,
{
    if n == 0 {
        (Seq::empty(), counter)
    } else {
        let prev = materialized_uids(rs, (n - 1) as nat, counter);
        let keeps = match rs[n - 1].uid {
            Some(u) => u@.len() > 0 && !prev.0.contains(u@),
            None => false,
        };
        if keeps {
            (prev.0.push(rs[n - 1].uid->0@), prev.1)
        } else {
            (prev.0.push(uid_of(prev.1)), prev.1 + 1)
        }
    }
}

/// The rebuilt components, their uids and the counter after them, and for
/// each component the legs it keeps, with their source set to its new
/// place.
pub fn materialize_rebuilt_components(
    plan: &FlightPlan,
    rebuilt_components: Vec<RebuiltRouteComponent>,
) -> (r: (Vec<RouteComponent>, Vec<String>, u64, Vec<Option<Vec<ResolvedLeg>>>))
    requires
        plan.route_component_uid_counter + rebuilt_components.len() <= u64::MAX,
    ensures
        r.0.len() == rebuilt_components.len(),
        forall|i: int|
            0 <= i < r.0.len() ==> #[trigger] r.0@[i] == rebuilt_components@[i].component,
        string_texts(r.1@) == materialized_uids(
            rebuilt_components@,
            rebuilt_components.len() as nat,
            plan.route_component_uid_counter as int,
        ).0,
        r.2 == materialized_uids(
            rebuilt_components@,
            rebuilt_components.len() as nat,
            plan.route_component_uid_counter as int,
        ).1,
        r.3.len() == rebuilt_components.len(),
        forall|i: int|
            0 <= i < r.3.len() ==> match #[trigger] r.3@[i] {
                Some(v) => rebuilt_components@[i].preserved_legs matches Some(p) && v.len() == p.len()
                    && forall|j: int|
                    0 <= j < v.len() ==> v@[j] == (ResolvedLeg {
                        source: ResolvedLegSource::RouteComponent { component_index: i as usize },
                        ..p@[j]
                    }),
                None => rebuilt_components@[i].preserved_legs is None,
            },
{
    let ghost rs = rebuilt_components@;
    let ghost start = plan.route_component_uid_counter as int;
    let n = rebuilt_components.len();
    let mut next_counter = plan.route_component_uid_counter;
    let mut route_components: Vec<RouteComponent> = Vec::new();
    let mut route_component_uids: Vec<String> = Vec::new();
    let mut grouped: Vec<Option<Vec<ResolvedLeg>>> = Vec::new();
    let mut rest = rebuilt_components;
    let mut index: usize = 0;
    while index < n
        invariant
            n == rs.len(),
            start + n <= u64::MAX,
            index <= n,
            rest@ == rs.subrange(index as int, n as int),
            route_components.len() == index,
            forall|i: int| 0 <= i < index ==> #[trigger] route_components@[i] == rs[i].component,
            string_texts(route_component_uids@) == materialized_uids(rs, index as nat, start).0,
            next_counter == materialized_uids(rs, index as nat, start).1,
            next_counter <= start + index,
            grouped.len() == index,
            forall|i: int|
                0 <= i < index ==> match #[trigger] grouped@[i] {
                    Some(v) => rs[i].preserved_legs matches Some(p) && v.len() == p.len()
                        && forall|j: int|
                        0 <= j < v.len() ==> v@[j] == (ResolvedLeg {
                            source: ResolvedLegSource::RouteComponent { component_index: i as usize },
                            ..p@[j]
                        }),
                    None => rs[i].preserved_legs is None,
                },
        decreases n - index,
    {
        assert(rest@[0] == rs[index as int]);
        let rebuilt = rest.remove(0);
        assert(rest@ =~= rs.subrange(index + 1, n as int));
        let ghost prev_texts = string_texts(route_component_uids@);
        let keep = match &rebuilt.uid {
            Some(u) => !str_is_empty(u.as_str()) && !crate::flight_plan::contains_text(
                &route_component_uids,
                u.as_str(),
            ),
            None => false,
        };
        let uid = if keep {
            rebuilt.uid.unwrap()
        } else {
            allocate_route_component_uid(&mut next_counter)
        };
        route_component_uids.push(uid);
        assert(string_texts(route_component_uids@) =~= prev_texts.push(uid@));
        let entry = match &rebuilt.preserved_legs {
            Some(legs) => Some(rewrite_grouped_legs_source(legs, index)),
            None => None,
        };
        grouped.push(entry);
        route_components.push(rebuilt.component);
        index = index + 1;
    }
    (route_components, route_component_uids, next_counter, grouped)
}

/// The kept legs that materialising gives each component carry that
/// component's new place as their source, so rebuilding the route from them
/// keeps them all.
pub proof fn law_materialized_legs_survive_rebuild(
    cs: Seq<RouteComponent>,
    rs: Seq<RebuiltRouteComponent>,
    grouped: Seq<Option<Vec<ResolvedLeg>>>,
)
    requires
        cs.len() == rs.len(),
        grouped.len() == rs.len(),
        cs.len() <= usize::MAX,
        forall|i: int|
            0 <= i < grouped.len() ==> match #[trigger] grouped[i] {
                Some(v) => rs[i].preserved_legs matches Some(p) && v.len() == p.len()
                    && forall|j: int|
                    0 <= j < v.len() ==> v@[j] == (ResolvedLeg {
                        source: ResolvedLegSource::RouteComponent { component_index: i as usize },
                        ..p@[j]
                    }),
                None => rs[i].preserved_legs is None,
            },
    ensures
        kept_legs_sourced(grouped),
        first_unpreserved(grouped, rebuild_upto(cs, grouped, cs.len() as int).0, grouped.len() as int)
            is None,
{
    assert forall|c: int, j: int|
        0 <= c < grouped.len() && 0 <= j < grouped_at(grouped, c).len() implies (#[trigger] grouped_at(
        grouped,
        c,
    )[j]).source == (ResolvedLegSource::RouteComponent { component_index: c as usize }) by {
        match grouped[c] {
            Some(v) => {
                assert(grouped_at(grouped, c)[j] == v@[j]);
            },
            None => {},
        }
    }
    law_rebuild_keeps_grouped_legs(cs, grouped);
}

} // verus!
