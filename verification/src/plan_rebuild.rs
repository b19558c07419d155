//! A plan rebuilt from the components an edit gives: the route is
//! materialised, checked and resolved again, and guidance is carried over
//! by the rows it ran between, or cleared.
use crate::direct_to::{identity_rows, identity_rows_of};
use crate::flight_plan::{
    are_waypoint_legs, details_before, details_fit, lemma_normal_uids_distinct,
    lemma_normal_uids_fixed, lemma_normalized_fits, normal_uids, normalized_from,
    normalized_route, plan_within_limits, FlightPlan, ProcedureLegProvenance, ResolvedLeg,
};
use crate::guidance::{GuidanceState, ResolvedLegSource};
use crate::guidance_restore::{
    anchor_restored, capture_active_guidance_anchor, captured_anchor,
    restore_guidance_from_row_uid_anchor, revalidate_guidance_with_rows,
    revalidation_outcome, ActiveGuidanceAnchor,
};
use crate::nav::{AirportId, NavRef};
use crate::rebuild::{
    debug_text_list, first_unpreserved, grouped_at, kept_ids, leg_views,
    materialize_rebuilt_components, materialized_uids, preserved_at,
    rebuild_resolved_legs_with_grouped_components, rebuild_step, rebuild_upto,
    validate_preserved_grouped_leg_order, view_ids_from, RebuiltRouteComponent,
};
use crate::route::{
    attachment_message, attachment_violation, validate_procedure_attachments, AppError,
    AppErrorKind, RouteComponent,
};
use crate::route_edits::error_of;
use crate::sequencing::duplicate_guidance;
use crate::text::{decimal, string_texts};
use vstd::prelude::*;

verus! {

/// What a rebuild does with guidance: carry it over by the rows it ran
/// between, or clear it.
#[derive(Clone, Copy, Debug, PartialEq, Eq, Structural)]
pub enum GuidanceRebuildPolicy {
    PreserveByRowUid,
    Clear,
}

/// The components of a rebuilt route, in order.
pub open spec fn components_of(rs: Seq<RebuiltRouteComponent>) -> Seq<RouteComponent> {
    rs.map_values(|r: RebuiltRouteComponent| r.component)
}

/// `g` holds, for each rebuilt component, the legs it keeps, with their
/// source set to the component's place; none where it keeps none.
pub open spec fn grouped_for(rs: Seq<RebuiltRouteComponent>, g: Seq<Option<Vec<ResolvedLeg>>>) -> bool {
    &&& g.len() == rs.len()
    &&& forall|i: int|
        0 <= i < g.len() ==> match #[trigger] g[i] {
            Some(v) => rs[i].preserved_legs matches Some(p) && v@.len() == p@.len() && forall|j: int|
                0 <= j < v@.len() ==> v@[j] == (ResolvedLeg {
                    source: ResolvedLegSource::RouteComponent { component_index: i as usize },
                    ..p@[j]
                }),
            None => rs[i].preserved_legs is None,
        }
}

/// The kept legs of the rebuilt components, each at its new place.
pub open spec fn materialized_grouped(rs: Seq<RebuiltRouteComponent>) -> Seq<Option<Vec<ResolvedLeg>>> {
    choose|g: Seq<Option<Vec<ResolvedLeg>>>| grouped_for(rs, g)
}

/// The legs of the rebuilt route, as the route sees them.
pub open spec fn rebuilt_views(rs: Seq<RebuiltRouteComponent>) -> Seq<
    (Seq<char>, NavRef, NavRef, ResolvedLegSource, Option<ProcedureLegProvenance>),
> {
    rebuild_upto(components_of(rs), materialized_grouped(rs), rs.len() as int).0
}

/// The message for component `c` whose kept legs the rebuilt route lost.
pub open spec fn unpreserved_message(
    g: Seq<Option<Vec<ResolvedLeg>>>,
    views: Seq<(Seq<char>, NavRef, NavRef, ResolvedLegSource, Option<ProcedureLegProvenance>)>,
    c: int,
) -> Seq<char> {
    "route rebuild did not preserve grouped legs for component "@ + decimal(c as nat) + ": expected "@
        + debug_text_list(kept_ids(g, c)) + ", got "@ + debug_text_list(view_ids_from(views, c))
}

/// The checks of a rebuild: the procedures must be attached where they
/// belong, and every component must keep its legs, in order.
pub open spec fn rebuild_check(rs: Seq<RebuiltRouteComponent>) -> Result<(), (AppErrorKind, Seq<char>)> {
    match attachment_violation(components_of(rs)) {
        Some(kind) => Err((AppErrorKind::InvalidFlightPlan, attachment_message(kind))),
        None => match first_unpreserved(materialized_grouped(rs), rebuilt_views(rs), rs.len() as int) {
            Some(c) => Err(
                (
                    AppErrorKind::InvalidFlightPlan,
                    unpreserved_message(materialized_grouped(rs), rebuilt_views(rs), c),
                ),
            ),
            None => Ok(()),
        },
    }
}

/// `q` is the plan rebuilt from `rs` over `old`, before guidance: the
/// components of `rs` with the uids that materialising and then normalising
/// give them, counting on from `old`'s normalised counter; the rebuilt legs
/// (or, for a route that resolves to none, the direct legs between its
/// waypoints); no guidance; the rest as in `old`.
pub open spec fn rebuilt_route(old: FlightPlan, rs: Seq<RebuiltRouteComponent>, q: FlightPlan) -> bool {
    let n = rs.len();
    let start = normal_uids(
        string_texts(old.route_component_uids@),
        old.route_components.len() as nat,
        old.route_component_uid_counter as int,
    ).1;
    let mat = materialized_uids(rs, n as nat, start);
    let norm = normal_uids(mat.0, n as nat, mat.1);
    let views = rebuilt_views(rs);
    &&& q.id == old.id
    &&& q.name == old.name
    &&& q.route_components@ == components_of(rs)
    &&& string_texts(q.route_component_uids@) == norm.0
    &&& q.route_component_uid_counter == norm.1
    &&& if views.len() == 0 && n > 0 {
        are_waypoint_legs(components_of(rs), q.resolved_legs@)
    } else {
        leg_views(q.resolved_legs@) == views
    }
    &&& q.guidance is None
    &&& q.departure == old.departure
    &&& q.destination == old.destination
    &&& q.alternate == old.alternate
    &&& q.cruise_altitude_ft == old.cruise_altitude_ft
    &&& q.planned_departure_time_epoch_ms == old.planned_departure_time_epoch_ms
    &&& q.notes == old.notes
    &&& q.updated_at_epoch_ms == old.updated_at_epoch_ms
    &&& q.version == old.version
}

/// `g` is the guidance carried from the normalised old plan `nold` to the
/// rebuilt plan `q`: where guidance could be anchored to its rows, it is
/// found again by them; else the old guidance is revalidated on `q`.
pub open spec fn guidance_carried(
    nold: FlightPlan,
    q: FlightPlan,
    g: Result<Option<GuidanceState>, AppError>,
) -> bool {
    exists|a: Option<ActiveGuidanceAnchor>|
        #[trigger] captured_anchor(nold, a) && match a {
            Some(anchor) => anchor_restored(q, anchor, g),
            None => exists|idrows: Seq<crate::rows::FlightPlanDisplayRowUiView>|
                #[trigger] identity_rows_of(q, idrows) && revalidation_outcome(
                    q,
                    idrows,
                    nold.guidance,
                    g,
                ),
        }
}

/// The guidance part of an outcome.
pub open spec fn guidance_of(r: Result<FlightPlan, AppError>) -> Result<Option<GuidanceState>, AppError> {
    match r {
        Ok(p) => Ok(p.guidance),
        Err(e) => Err(e),
    }
}

/// `r` is the outcome of rebuilding `old` from `rs` under `policy`: the
/// error of the first failed check; else the rebuilt plan, with no guidance
/// under `Clear`, and with the guidance carried over (or its error) under
/// `PreserveByRowUid`.
pub open spec fn rebuild_outcome(
    old: FlightPlan,
    rs: Seq<RebuiltRouteComponent>,
    policy: GuidanceRebuildPolicy,
    r: Result<FlightPlan, AppError>,
) -> bool {
    match rebuild_check(rs) {
        Err(e) => r matches Err(x) && error_of(x) == e,
        Ok(()) => exists|q: FlightPlan|
            #[trigger] rebuilt_route(old, rs, q) && match policy {
                GuidanceRebuildPolicy::Clear => r == Ok::<FlightPlan, AppError>(q),
                GuidanceRebuildPolicy::PreserveByRowUid => {
                    &&& (r matches Ok(p) ==> p == FlightPlan { guidance: p.guidance, ..q })
                    &&& exists|nold: FlightPlan|
                        #[trigger] normalized_from(old, nold) && guidance_carried(
                            nold,
                            q,
                            guidance_of(r),
                        )
                },
            },
    }
}

/// The guidance details of a leg, as the route sees it.
pub open spec fn view_details(
    v: (Seq<char>, NavRef, NavRef, ResolvedLegSource, Option<ProcedureLegProvenance>),
) -> nat {
    match v.4 {
        Some(p) => match p.display_path {
            Some(path) => if path.element_count == 0 {
                1
            } else {
                path.element_count as nat
            },
            None => 1,
        },
        None => 1,
    }
}

/// The guidance details of the first `k` legs.
pub open spec fn view_details_before(
    views: Seq<(Seq<char>, NavRef, NavRef, ResolvedLegSource, Option<ProcedureLegProvenance>)>,
    k: int,
) -> nat
    decreases k,
{
    if k <= 0 {
        0
    } else {
        view_details_before(views, k - 1) + view_details(views[k - 1])
    }
}

/// The machine limits of a rebuild: the uid counter stays within `u64`, the
/// route within half of `usize`, and the guidance details of the rebuilt
/// legs within `usize`.
pub open spec fn rebuild_within_limits(old: FlightPlan, rs: Seq<RebuiltRouteComponent>) -> bool {
    &&& old.route_component_uid_counter + old.route_components.len() + 2 * rs.len() <= u64::MAX
    &&& rs.len() < usize::MAX / 2
    &&& view_details_before(rebuilt_views(rs), rebuilt_views(rs).len() as int) <= usize::MAX
}

/// Two lists of kept legs that both place the same rebuilt components
/// rebuild the same route and fail the same check.
proof fn lemma_grouped_unique(
    rs: Seq<RebuiltRouteComponent>,
    g1: Seq<Option<Vec<ResolvedLeg>>>,
    g2: Seq<Option<Vec<ResolvedLeg>>>,
    cs: Seq<RouteComponent>,
    views: Seq<(Seq<char>, NavRef, NavRef, ResolvedLegSource, Option<ProcedureLegProvenance>)>,
    k: int,
)
    requires
        grouped_for(rs, g1),
        grouped_for(rs, g2),
        0 <= k <= rs.len(),
    ensures
        rebuild_upto(cs, g1, k) == rebuild_upto(cs, g2, k),
        first_unpreserved(g1, views, k) == first_unpreserved(g2, views, k),
        forall|c: int| 0 <= c < rs.len() ==> kept_ids(g1, c) == kept_ids(g2, c),
    decreases k,
{
    assert forall|c: int| 0 <= c < rs.len() implies #[trigger] grouped_at(g1, c) == grouped_at(g2, c)
        && (g1[c] is None <==> g2[c] is None) by {
        match g1[c] {
            Some(v1) => {
                let v2 = g2[c]->0;
                assert(v1@ =~= v2@);
            },
            None => {},
        }
    }
    assert forall|c: int| 0 <= c < rs.len() implies kept_ids(g1, c) == kept_ids(g2, c) by {
        assert(grouped_at(g1, c) == grouped_at(g2, c));
    }
    if k > 0 {
        lemma_grouped_unique(rs, g1, g2, cs, views, k - 1);
        assert(grouped_at(g1, k - 1) == grouped_at(g2, k - 1));
        let s = rebuild_upto(cs, g1, k - 1);
        assert(rebuild_step(cs, g1, k - 1, s) == rebuild_step(cs, g2, k - 1, s));
        assert(preserved_at(g1, views, k - 1) == preserved_at(g2, views, k - 1));
    }
}

/// Legs with the same views have the same guidance details.
proof fn lemma_view_details(legs: Seq<ResolvedLeg>, k: int)
    requires
        0 <= k <= legs.len(),
    ensures
        details_before(legs, k) == view_details_before(leg_views(legs), k),
    decreases k,
{
    if k > 0 {
        lemma_view_details(legs, k - 1);
        assert(leg_views(legs)[k - 1] == crate::rebuild::leg_view(legs[k - 1]));
    }
}

/// Materialising moves the uid counter on by at most one per component.
proof fn lemma_materialized_counter(rs: Seq<RebuiltRouteComponent>, n: nat, counter: int)
    ensures
        counter <= materialized_uids(rs, n, counter).1 <= counter + n,
        materialized_uids(rs, n, counter).0.len() == n,
    decreases n,
{
    if n > 0 {
        lemma_materialized_counter(rs, (n - 1) as nat, counter);
    }
}

/// The uid texts that the rebuilt components bring.
pub open spec fn brought_uids(rs: Seq<RebuiltRouteComponent>) -> Seq<Seq<char>> {
    rs.map_values(|r: RebuiltRouteComponent| r.uid->0@)
}

/// Every rebuilt component brings a uid of its own: present, not empty,
/// and unlike every other's.
pub open spec fn brings_own_uids(rs: Seq<RebuiltRouteComponent>) -> bool {
    &&& forall|i: int| 0 <= i < rs.len() ==> ((#[trigger] rs[i]).uid matches Some(u) && u@.len() > 0)
    &&& forall|i: int, j: int|
        0 <= i < j < rs.len() ==> (#[trigger] rs[i]).uid->0@ != (#[trigger] rs[j]).uid->0@
}

proof fn lemma_materialized_keeps_uids(rs: Seq<RebuiltRouteComponent>, k: nat, counter: int)
    requires
        k <= rs.len(),
        brings_own_uids(rs),
    ensures
        materialized_uids(rs, k, counter) == (brought_uids(rs).take(k as int), counter),
    decreases k,
{
    if k > 0 {
        lemma_materialized_keeps_uids(rs, (k - 1) as nat, counter);
        let prev = brought_uids(rs).take(k - 1);
        if prev.contains(rs[k - 1].uid->0@) {
            let i = choose|i: int| 0 <= i < prev.len() && prev[i] == rs[k - 1].uid->0@;
            assert(rs[i].uid->0@ == rs[k - 1].uid->0@);
        }
        assert(prev.push(rs[k - 1].uid->0@) =~= brought_uids(rs).take(k as int));
    }
}

/// A rebuild in which every component brings a uid of its own keeps those
/// uids, in order, and allocates none.
pub proof fn law_own_uids_survive_rebuild(old: FlightPlan, rs: Seq<RebuiltRouteComponent>, q: FlightPlan)
    requires
        rebuilt_route(old, rs, q),
        brings_own_uids(rs),
    ensures
        string_texts(q.route_component_uids@) == brought_uids(rs),
        q.route_component_uid_counter == normal_uids(
            string_texts(old.route_component_uids@),
            old.route_components.len() as nat,
            old.route_component_uid_counter as int,
        ).1,
{
    let n = rs.len();
    let start = normal_uids(
        string_texts(old.route_component_uids@),
        old.route_components.len() as nat,
        old.route_component_uid_counter as int,
    ).1;
    lemma_materialized_keeps_uids(rs, n as nat, start);
    let u = brought_uids(rs);
    assert(u.take(n as int) =~= u);
    assert forall|i: int, j: int| 0 <= i < j < u.len() implies #[trigger] u[i] != #[trigger] u[j] by {
        assert(rs[i].uid->0@ != rs[j].uid->0@);
    }
    assert forall|i: int| 0 <= i < u.len() implies (#[trigger] u[i]).len() > 0 by {
        assert(rs[i].uid is Some);
    }
    lemma_normal_uids_fixed(u, start, n as nat);
}

/// Every plan a rebuild gives has one uid per component, none empty and no
/// two alike.
pub proof fn law_rebuilt_uids_are_distinct(old: FlightPlan, rs: Seq<RebuiltRouteComponent>, q: FlightPlan)
    requires
        plan_within_limits(old),
        rebuild_within_limits(old, rs),
        rebuilt_route(old, rs, q),
    ensures
        q.route_component_uids.len() == q.route_components.len(),
        forall|i: int|
            0 <= i < q.route_component_uids.len() ==> (#[trigger] q.route_component_uids@[i])@.len() > 0,
        forall|i: int, j: int|
            0 <= i < j < q.route_component_uids.len() ==> (#[trigger] q.route_component_uids@[i])@
                != (#[trigger] q.route_component_uids@[j])@,
{
    let n = rs.len();
    lemma_normal_uids_distinct(
        string_texts(old.route_component_uids@),
        old.route_components.len() as nat,
        old.route_component_uid_counter as int,
    );
    let start = normal_uids(
        string_texts(old.route_component_uids@),
        old.route_components.len() as nat,
        old.route_component_uid_counter as int,
    ).1;
    lemma_materialized_counter(rs, n as nat, start);
    let mat = materialized_uids(rs, n as nat, start);
    lemma_normal_uids_distinct(mat.0, n as nat, mat.1);
    let t = string_texts(q.route_component_uids@);
    assert(t.len() == q.route_component_uids@.len());
    assert forall|i: int| 0 <= i < q.route_component_uids.len() implies (
    #[trigger] q.route_component_uids@[i])@.len() > 0 by {
        assert(t[i] == q.route_component_uids@[i]@);
    }
    assert forall|i: int, j: int| 0 <= i < j < q.route_component_uids.len() implies (
    #[trigger] q.route_component_uids@[i])@ != (#[trigger] q.route_component_uids@[j])@ by {
        assert(t[i] == q.route_component_uids@[i]@);
        assert(t[j] == q.route_component_uids@[j]@);
    }
}

/// Rebuilds `old_plan` from the components an edit gives: materialises
/// them, checks the procedures' attachment, resolves the legs again and
/// checks that each component kept its legs, then normalises the plan and
/// carries guidance over as `guidance_policy` says.
pub fn rebuild_plan_from_uid_components(
    old_plan: FlightPlan,
    rebuilt_components: Vec<RebuiltRouteComponent>,
    guidance_policy: GuidanceRebuildPolicy,
) -> (r: Result<FlightPlan, AppError>)
    requires
        plan_within_limits(old_plan),
        old_plan.route_components.len() <= isize::MAX,
        rebuild_within_limits(old_plan, rebuilt_components@),
    ensures
        rebuild_outcome(old_plan, rebuilt_components@, guidance_policy, r),
{
    let ghost old = old_plan;
    let old_plan = old_plan.normalized();
    proof {
        lemma_normal_uids_distinct(
            string_texts(old.route_component_uids@),
            old.route_components.len() as nat,
            old.route_component_uid_counter as int,
        );
        assert(string_texts(old_plan.route_component_uids@).len() == old_plan.route_component_uids@.len());
        lemma_normalized_fits(old, old_plan);
    }
    rebuild_normalized(Ghost(old), &old_plan, rebuilt_components, guidance_policy)
}

/// A copy of an optional airport.
fn duplicate_airport(a: &Option<AirportId>) -> (r: Option<AirportId>)
    ensures
        r == *a,
{
    match a {
        Some(x) => Some(AirportId(x.0.clone())),
        None => None,
    }
}

/// Rebuilds `old` from the components an edit gives, `nold` being `old`
/// normalised; `nold` itself is left as it is.
pub(crate) fn rebuild_normalized(
    Ghost(old): Ghost<FlightPlan>,
    nold: &FlightPlan,
    rebuilt_components: Vec<RebuiltRouteComponent>,
    guidance_policy: GuidanceRebuildPolicy,
) -> (r: Result<FlightPlan, AppError>)
    requires
        plan_within_limits(old),
        normalized_from(old, *nold),
        details_fit(*nold),
        nold.route_component_uids.len() == nold.route_components.len(),
        nold.route_components.len() <= isize::MAX,
        rebuild_within_limits(old, rebuilt_components@),
    ensures
        rebuild_outcome(old, rebuilt_components@, guidance_policy, r),
{
    let ghost rs = rebuilt_components@;
    let ghost n = rs.len();
    proof {
        lemma_normal_uids_distinct(
            string_texts(old.route_component_uids@),
            old.route_components.len() as nat,
            old.route_component_uid_counter as int,
        );
    }
    let anchor = match guidance_policy {
        GuidanceRebuildPolicy::PreserveByRowUid => capture_active_guidance_anchor(nold),
        GuidanceRebuildPolicy::Clear => None,
    };
    let ghost a0 = anchor;
    let (route_components, route_component_uids, route_component_uid_counter, grouped_legs) =
        materialize_rebuilt_components(nold, rebuilt_components);
    let ghost g = grouped_legs@;
    let ghost cs = components_of(rs);
    proof {
        assert(route_components@ =~= cs);
        assert(grouped_for(rs, g));
        lemma_grouped_unique(rs, g, materialized_grouped(rs), cs, rebuilt_views(rs), n as int);
        lemma_materialized_counter(rs, n as nat, nold.route_component_uid_counter as int);
    }
    match validate_procedure_attachments(route_components.as_slice()) {
        Ok(()) => {},
        Err(e) => {
            return Err(e);
        },
    }
    let resolved_legs = rebuild_resolved_legs_with_grouped_components(&route_components, &grouped_legs);
    proof {
        lemma_grouped_unique(rs, g, materialized_grouped(rs), cs, leg_views(resolved_legs@), n as int);
        assert(leg_views(resolved_legs@) == rebuilt_views(rs));
    }
    match validate_preserved_grouped_leg_order(&grouped_legs, &resolved_legs) {
        Ok(()) => {},
        Err(e) => {
            return Err(e);
        },
    }
    let built = FlightPlan {
        id: nold.id.clone(),
        name: nold.name.clone(),
        route_components,
        route_component_uids,
        route_component_uid_counter,
        resolved_legs,
        guidance: None,
        departure: duplicate_airport(&nold.departure),
        destination: duplicate_airport(&nold.destination),
        alternate: duplicate_airport(&nold.alternate),
        cruise_altitude_ft: nold.cruise_altitude_ft,
        planned_departure_time_epoch_ms: nold.planned_departure_time_epoch_ms,
        notes: match &nold.notes {
            Some(t) => Some(t.clone()),
            None => None,
        },
        updated_at_epoch_ms: nold.updated_at_epoch_ms,
        version: nold.version,
    };
    proof {
        lemma_view_details(built.resolved_legs@, built.resolved_legs@.len() as int);
        assert(leg_views(built.resolved_legs@).len() == built.resolved_legs@.len());
        assert(details_fit(built));
    }
    let ghost b = built;
    let mut plan = built.normalized();
    proof {
        lemma_normalized_fits(b, plan);
        lemma_normal_uids_distinct(
            string_texts(b.route_component_uids@),
            n as nat,
            b.route_component_uid_counter as int,
        );
        assert(string_texts(plan.route_component_uids@).len() == plan.route_component_uids@.len());
        assert(rebuilt_route(old, rs, plan));
    }
    let ghost q = plan;
    match guidance_policy {
        GuidanceRebuildPolicy::Clear => Ok(plan),
        GuidanceRebuildPolicy::PreserveByRowUid => {
            let carried = match anchor {
                Some(a) => restore_guidance_from_row_uid_anchor(&mut plan, &a),
                None => {
                    let old_guidance = match &nold.guidance {
                        Some(og) => Some(duplicate_guidance(og)),
                        None => None,
                    };
                    let idrows = identity_rows(&plan);
                    revalidate_guidance_with_rows(old_guidance, &plan, idrows.as_slice())
                },
            };
            proof {
                assert(captured_anchor(*nold, a0));
                assert(guidance_carried(*nold, q, carried));
            }
            match carried {
                Ok(guidance) => {
                    plan.guidance = guidance;
                    Ok(plan)
                },
                Err(e) => Err(e),
            }
        },
    }
}

/// Restores a plan's route from a definition saved earlier, without its
/// old guidance: the current guidance is carried over to it by its rows,
/// as after any edit.
pub fn restore_flight_plan_definition(current_plan: FlightPlan, historical_definition: FlightPlan) -> (r:
    Result<FlightPlan, AppError>)
    requires
        plan_within_limits(current_plan),
        current_plan.route_components.len() <= isize::MAX,
        plan_within_limits(historical_definition),
        historical_definition.route_components.len() <= isize::MAX,
    ensures
        exists|ncur: FlightPlan, q: FlightPlan|
            #[trigger] normalized_from(current_plan, ncur) && #[trigger] normalized_route(
                historical_definition,
                q,
            ) && q.guidance is None && (r matches Ok(p) ==> p == FlightPlan { guidance: p.guidance, ..q })
                && guidance_carried(ncur, q, guidance_of(r)),
{
    let ghost cur = current_plan;
    let ghost hist = historical_definition;
    let current_plan = current_plan.normalized();
    proof {
        lemma_normal_uids_distinct(
            string_texts(cur.route_component_uids@),
            cur.route_components.len() as nat,
            cur.route_component_uid_counter as int,
        );
        assert(string_texts(current_plan.route_component_uids@).len()
            == current_plan.route_component_uids@.len());
        lemma_normalized_fits(cur, current_plan);
    }
    let anchor = capture_active_guidance_anchor(&current_plan);
    let ghost a0 = anchor;
    let ghost ncur = current_plan;
    let current_guidance = current_plan.guidance;
    let mut restored = historical_definition.normalized();
    restored.guidance = None;
    proof {
        lemma_normal_uids_distinct(
            string_texts(hist.route_component_uids@),
            hist.route_components.len() as nat,
            hist.route_component_uid_counter as int,
        );
        assert(string_texts(restored.route_component_uids@).len() == restored.route_component_uids@.len());
        lemma_normalized_fits(hist, restored);
    }
    let ghost q = restored;
    let carried = match anchor {
        Some(a) => restore_guidance_from_row_uid_anchor(&mut restored, &a),
        None => {
            let idrows = identity_rows(&restored);
            revalidate_guidance_with_rows(current_guidance, &restored, idrows.as_slice())
        },
    };
    proof {
        assert(captured_anchor(ncur, a0));
        assert(guidance_carried(ncur, q, carried));
    }
    match carried {
        Ok(guidance) => {
            restored.guidance = guidance;
            Ok(restored)
        },
        Err(e) => Err(e),
    }
}

} // verus!
