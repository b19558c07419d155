//! The route edits of a flight plan: each normalises the plan, lists the
//! components its route is rebuilt from (or refuses the edit), and rebuilds
//! the plan from them.
use crate::attachment::index_fault;
use crate::flight_plan::{
    details_fit, lemma_normal_uids_distinct, lemma_normal_uids_fixed, lemma_normalized_fits,
    normalized_from, plan_within_limits, FlightPlan, ResolvedLeg,
};
use crate::nav::NavRef;
use crate::plan_rebuild::{
    brings_own_uids, brought_uids, components_of, law_own_uids_survive_rebuild,
    law_rebuilt_uids_are_distinct, rebuild_normalized, rebuild_outcome,
    rebuild_plan_from_uid_components,
    rebuild_within_limits, rebuilt_route, rebuilt_views, view_details_before, GuidanceRebuildPolicy,
};
use crate::rebuild::{grouped_component_legs, RebuiltRouteComponent};
use crate::route::{
    same_component, same_procedure, AirwaySegment, AppError, AppErrorKind, ProcedureKind,
    ProcedureSegment, RouteComponent,
};
use crate::route_edits::{
    spec_airway_tail_insertion, waypoint_is,
    airport_waypoint_insertion_components, airport_waypoint_insertion_outcome,
    airway_chaining_components, airway_chaining_outcome, airway_child_removal_components,
    airway_child_removal_outcome, airway_endpoint_change_components,
    airway_endpoint_change_outcome, airway_exit_materialization_components,
    airway_exit_materialization_outcome, airway_insertion_components, airway_insertion_outcome,
    airway_replacement_components, airway_replacement_outcome, airway_tail_insertion_components,
    airway_tail_insertion_outcome, airway_replacement_list,
    airway_replacement_rebuild_components, replacement_view, deletion_components,
    deletion_outcome, departure_insertion_components, departure_insertion_outcome, error_of,
    existing_component, moved_indices, rebuilt_existing_component, uid_at,
    flattening_components, flattening_outcome, initial_procedure_insertion_components,
    initial_procedure_insertion_outcome, move_components, move_outcome,
    procedure_insertion_components, procedure_insertion_outcome,
    procedure_replacement_components, procedure_replacement_outcome,
    procedure_transition_change_components, procedure_transition_change_outcome,
    remove_all_above_components, remove_all_above_outcome,
    terminal_procedure_insertion_components, terminal_procedure_insertion_outcome,
    waypoint_deletion_components, waypoint_deletion_outcome, waypoint_insertion_components,
    waypoint_insertion_outcome,
};
use crate::text::{owned, push_str, string_texts};
use vstd::prelude::*;

verus! {

/// The machine limits of an edit of `plan` whose route is rebuilt from
/// `rs`: the uid counter stays within `u64` through both normalisations,
/// the route within half of `usize`, and the guidance details of the
/// rebuilt legs within `usize`.
pub open spec fn edit_within_limits(plan: FlightPlan, rs: Seq<RebuiltRouteComponent>) -> bool {
    &&& plan.route_component_uid_counter + 2 * plan.route_components.len() + 2 * rs.len() <= u64::MAX
    &&& rs.len() < usize::MAX / 2
    &&& view_details_before(rebuilt_views(rs), rebuilt_views(rs).len() as int) <= usize::MAX
}

/// `r` is the outcome of an edit of the normalised plan `n` whose listing
/// gave `d`: the listing's error, or the plan rebuilt from its components
/// under `policy`.
pub open spec fn edit_outcome(
    n: FlightPlan,
    d: Result<Vec<RebuiltRouteComponent>, AppError>,
    policy: GuidanceRebuildPolicy,
    r: Result<FlightPlan, AppError>,
) -> bool {
    match d {
        Err(e) => r == Err::<FlightPlan, AppError>(e),
        Ok(rs) => rebuild_outcome(n, rs@, policy, r),
    }
}

/// `r` is `r0`, unless `r0` is a plan without a single leg to fly: that is
/// refused, the edit being named by `after`.
pub open spec fn flyable_outcome(
    r0: Result<FlightPlan, AppError>,
    after: Seq<char>,
    r: Result<FlightPlan, AppError>,
) -> bool {
    match r0 {
        Ok(p) => if p.resolved_legs.len() == 0 {
            r matches Err(x) && error_of(x) == (
                AppErrorKind::InvalidFlightPlan,
                "flight plan must contain at least one flyable leg after "@ + after,
            )
        } else {
            r == r0
        },
        Err(_) => r == r0,
    }
}

/// A normalised plan keeps the limits of an edit of the plan it came from.
pub(crate) proof fn lemma_edit_limits(plan: FlightPlan, n: FlightPlan, rs: Seq<RebuiltRouteComponent>)
    requires
        plan_within_limits(plan),
        normalized_from(plan, n),
        edit_within_limits(plan, rs),
    ensures
        plan_within_limits(n),
        rebuild_within_limits(n, rs),
{
    lemma_normal_uids_distinct(
        string_texts(plan.route_component_uids@),
        plan.route_components.len() as nat,
        plan.route_component_uid_counter as int,
    );
    lemma_normalized_fits(plan, n);
}

/// Rebuilds the normalised plan `n` from the components an edit listed, or
/// passes the edit's error on.
fn rebuild_edit(
    n: FlightPlan,
    d: Result<Vec<RebuiltRouteComponent>, AppError>,
    policy: GuidanceRebuildPolicy,
) -> (r: Result<FlightPlan, AppError>)
    requires
        n.route_components.len() <= isize::MAX,
        d matches Ok(rs) ==> plan_within_limits(n) && rebuild_within_limits(n, rs@),
    ensures
        edit_outcome(n, d, policy, r),
{
    match d {
        Err(e) => Err(e),
        Ok(rs) => rebuild_plan_from_uid_components(n, rs, policy),
    }
}

/// Refuses a rebuilt plan without a single leg to fly.
fn require_flyable(r0: Result<FlightPlan, AppError>, after: &str) -> (r: Result<FlightPlan, AppError>)
    ensures
        flyable_outcome(r0, after@, r),
{
    match r0 {
        Ok(p) => if p.resolved_legs.len() == 0 {
            let mut m = owned("flight plan must contain at least one flyable leg after ");
            push_str(&mut m, after);
            Err(AppError { kind: AppErrorKind::InvalidFlightPlan, message: m })
        } else {
            Ok(p)
        },
        Err(e) => Err(e),
    }
}

/// A rebuild that keeps old components of a normalised plan, each at most
/// once, keeps their uids: component `m` of the rebuilt plan has the uid
/// that old component `picks[m]` had.
pub proof fn law_kept_components_keep_uids(
    p: FlightPlan,
    n: FlightPlan,
    rs: Seq<RebuiltRouteComponent>,
    picks: Seq<int>,
    q: FlightPlan,
)
    requires
        plan_within_limits(p),
        normalized_from(p, n),
        rs.len() == picks.len(),
        forall|m: int|
            0 <= m < rs.len() ==> 0 <= #[trigger] picks[m] < n.route_components.len()
                && existing_component(n, picks[m], rs[m]),
        forall|a: int, b: int| 0 <= a < b < picks.len() ==> #[trigger] picks[a] != #[trigger] picks[b],
        rebuilt_route(n, rs, q),
    ensures
        forall|m: int|
            0 <= m < rs.len() ==> (#[trigger] q.route_component_uids@[m])@
                == n.route_component_uids@[picks[m]]@,
{
    lemma_normal_uids_distinct(
        string_texts(p.route_component_uids@),
        p.route_components.len() as nat,
        p.route_component_uid_counter as int,
    );
    let nt = string_texts(n.route_component_uids@);
    assert(nt.len() == n.route_component_uids@.len());
    assert forall|i: int| 0 <= i < rs.len() implies ((#[trigger] rs[i]).uid matches Some(u) && u@.len()
        > 0) by {
        assert(existing_component(n, picks[i], rs[i]));
        assert(nt[picks[i]] == n.route_component_uids@[picks[i]]@);
    }
    assert forall|i: int, j: int| 0 <= i < j < rs.len() implies (#[trigger] rs[i]).uid->0@
        != (#[trigger] rs[j]).uid->0@ by {
        assert(existing_component(n, picks[i], rs[i]));
        assert(existing_component(n, picks[j], rs[j]));
        assert(picks[i] != picks[j]);
        assert(nt[picks[i]] == n.route_component_uids@[picks[i]]@);
        assert(nt[picks[j]] == n.route_component_uids@[picks[j]]@);
    }
    assert(brings_own_uids(rs));
    law_own_uids_survive_rebuild(n, rs, q);
    let qt = string_texts(q.route_component_uids@);
    assert(qt.len() == q.route_component_uids@.len());
    assert(qt.len() == rs.len());
    assert forall|m: int| 0 <= m < rs.len() implies (#[trigger] q.route_component_uids@[m])@
        == n.route_component_uids@[picks[m]]@ by {
        assert(qt[m] == q.route_component_uids@[m]@);
        assert(brought_uids(rs)[m] == rs[m].uid->0@);
        assert(existing_component(n, picks[m], rs[m]));
    }
}

/// Moving component `c` to place `t` takes each old component exactly once.
pub proof fn lemma_moved_indices_permute(len: int, c: int, t: int)
    requires
        0 <= c < len,
        0 <= t < len,
    ensures
        moved_indices(len, c, t).len() == len,
        forall|m: int| 0 <= m < len ==> 0 <= #[trigger] moved_indices(len, c, t)[m] < len,
        forall|a: int, b: int|
            0 <= a < b < len ==> #[trigger] moved_indices(len, c, t)[a] != #[trigger] moved_indices(
                len,
                c,
                t,
            )[b],
{
    let ids = Seq::new(len as nat, |i: int| i);
    let r = ids.remove(c);
    let mv = moved_indices(len, c, t);
    assert forall|k: int| 0 <= k < len - 1 implies #[trigger] r[k] == if k < c {
        k
    } else {
        k + 1
    } by {}
    assert forall|m: int| 0 <= m < len implies #[trigger] mv[m] == if m < t {
        r[m]
    } else if m == t {
        c
    } else {
        r[m - 1]
    } by {}
}

/// Moving a component keeps every component's uid: the component at place
/// `m` after the move has the uid of the old component the move put there.
pub proof fn law_moving_keeps_uids(
    p: FlightPlan,
    n: FlightPlan,
    c: int,
    t: int,
    rs: Seq<RebuiltRouteComponent>,
    q: FlightPlan,
)
    requires
        plan_within_limits(p),
        normalized_from(p, n),
        0 <= c < n.route_components.len(),
        0 <= t < n.route_components.len(),
        rs.len() == n.route_components.len(),
        forall|m: int|
            0 <= m < rs.len() ==> existing_component(
                n,
                moved_indices(n.route_components.len() as int, c, t)[m],
                #[trigger] rs[m],
            ),
        rebuilt_route(n, rs, q),
    ensures
        forall|m: int|
            0 <= m < rs.len() ==> (#[trigger] q.route_component_uids@[m])@
                == n.route_component_uids@[moved_indices(n.route_components.len() as int, c, t)[m]]@,
{
    let len = n.route_components.len() as int;
    lemma_moved_indices_permute(len, c, t);
    law_kept_components_keep_uids(p, n, rs, moved_indices(len, c, t), q);
}

/// Moving from `t` back to `c` undoes moving from `c` to `t`: the old
/// component at place `m` is the one that comes back there.
pub proof fn lemma_moved_indices_undo(len: int, c: int, t: int, m: int)
    requires
        0 <= c < len,
        0 <= t < len,
        0 <= m < len,
    ensures
        0 <= moved_indices(len, t, c)[m] < len,
        moved_indices(len, c, t)[moved_indices(len, t, c)[m]] == m,
{
    lemma_moved_indices_permute(len, c, t);
    lemma_moved_indices_permute(len, t, c);
    let ids = Seq::new(len as nat, |i: int| i);
    let r1 = ids.remove(c);
    let r2 = ids.remove(t);
    assert forall|k: int| 0 <= k < len - 1 implies #[trigger] r1[k] == if k < c {
        k
    } else {
        k + 1
    } by {}
    assert forall|k: int| 0 <= k < len - 1 implies #[trigger] r2[k] == if k < t {
        k
    } else {
        k + 1
    } by {}
    let a = moved_indices(len, t, c);
    let b = moved_indices(len, c, t);
    assert forall|x: int| 0 <= x < len implies #[trigger] a[x] == if x < c {
        r2[x]
    } else if x == c {
        t
    } else {
        r2[x - 1]
    } by {}
    assert forall|x: int| 0 <= x < len implies #[trigger] b[x] == if x < t {
        r1[x]
    } else if x == t {
        c
    } else {
        r1[x - 1]
    } by {}
    let y = a[m];
    assert(b[y] == m);
}

/// Moving a component from place `c` to place `t`, and then from `t` back
/// to `c`, restores the route: every place holds its old component again,
/// with its old uid.
pub proof fn law_moving_back_restores_route(
    p: FlightPlan,
    n: FlightPlan,
    c: int,
    t: int,
    rs1: Seq<RebuiltRouteComponent>,
    q1: FlightPlan,
    n2: FlightPlan,
    rs2: Seq<RebuiltRouteComponent>,
    q2: FlightPlan,
)
    requires
        plan_within_limits(p),
        normalized_from(p, n),
        0 <= c < n.route_components.len(),
        0 <= t < n.route_components.len(),
        rs1.len() == n.route_components.len(),
        forall|m: int|
            0 <= m < rs1.len() ==> existing_component(
                n,
                moved_indices(n.route_components.len() as int, c, t)[m],
                #[trigger] rs1[m],
            ),
        edit_within_limits(p, rs1),
        rebuilt_route(n, rs1, q1),
        plan_within_limits(q1),
        normalized_from(q1, n2),
        rs2.len() == n2.route_components.len(),
        forall|m: int|
            0 <= m < rs2.len() ==> existing_component(
                n2,
                moved_indices(n2.route_components.len() as int, t, c)[m],
                #[trigger] rs2[m],
            ),
        rebuilt_route(n2, rs2, q2),
    ensures
        q2.route_components.len() == n.route_components.len(),
        forall|m: int|
            0 <= m < n.route_components.len() ==> (#[trigger] q2.route_component_uids@[m])@
                == n.route_component_uids@[m]@,
        forall|m: int|
            0 <= m < n.route_components.len() ==> same_component(
                #[trigger] q2.route_components@[m],
                n.route_components@[m],
            ),
{
    let len = n.route_components.len() as int;
    let mv1 = moved_indices(len, c, t);
    let mv2 = moved_indices(len, t, c);
    lemma_edit_limits(p, n, rs1);
    law_moving_keeps_uids(p, n, c, t, rs1, q1);
    law_rebuilt_uids_are_distinct(n, rs1, q1);
    let u1 = string_texts(q1.route_component_uids@);
    assert(u1.len() == q1.route_component_uids@.len());
    assert forall|i: int| 0 <= i < u1.len() implies (#[trigger] u1[i]).len() > 0 by {
        assert(u1[i] == q1.route_component_uids@[i]@);
    }
    assert forall|i: int, j: int| 0 <= i < j < u1.len() implies #[trigger] u1[i] != #[trigger] u1[j] by {
        assert(u1[i] == q1.route_component_uids@[i]@);
        assert(u1[j] == q1.route_component_uids@[j]@);
    }
    lemma_normal_uids_fixed(u1, q1.route_component_uid_counter as int, len as nat);
    assert(u1.take(len) =~= u1);
    assert(q1.route_components@ == components_of(rs1));
    assert(n2.route_components.len() == len);
    law_moving_keeps_uids(q1, n2, t, c, rs2, q2);
    let u2 = string_texts(n2.route_component_uids@);
    assert(u2.len() == n2.route_component_uids@.len());
    assert(q2.route_components@ == components_of(rs2));
    assert forall|m: int| 0 <= m < len implies (#[trigger] q2.route_component_uids@[m])@
        == n.route_component_uids@[m]@ by {
        lemma_moved_indices_undo(len, c, t, m);
        let k = mv2[m];
        assert(u2[k] == n2.route_component_uids@[k]@);
        assert(u1[k] == q1.route_component_uids@[k]@);
    }
    assert forall|m: int| 0 <= m < len implies same_component(
        #[trigger] q2.route_components@[m],
        n.route_components@[m],
    ) by {
        lemma_moved_indices_undo(len, c, t, m);
        let k = mv2[m];
        assert(existing_component(n2, k, rs2[m]));
        assert(existing_component(n, mv1[k], rs1[k]));
        assert(q2.route_components@[m] == rs2[m].component);
        assert(q1.route_components@[k] == rs1[k].component);
    }
}

/// Deletes component `component_index`, with the procedures attached to
/// it, and rebuilds the plan, carrying guidance over by its rows.
pub fn delete_component(
    plan: FlightPlan,
    component_index: usize,
) -> (r: Result<FlightPlan, AppError>)
    requires
        plan_within_limits(plan),
        plan.route_components.len() <= isize::MAX,
        forall|n: FlightPlan, rs: Vec<RebuiltRouteComponent>|
            #[trigger] normalized_from(plan, n) && #[trigger] deletion_outcome(
                n,
                component_index,
                Ok(rs),
            ) ==> edit_within_limits(plan, rs@),
    ensures
        exists|n: FlightPlan, d: Result<Vec<RebuiltRouteComponent>, AppError>|
            #[trigger] normalized_from(plan, n) && #[trigger] deletion_outcome(
                n,
                component_index,
                d,
            )
                && edit_outcome(n, d, GuidanceRebuildPolicy::PreserveByRowUid, r),
{
    let ghost p = plan;
    let plan = plan.normalized();
    let d = deletion_components(&plan, component_index);
    proof {
        if d is Ok {
            let rs = d->Ok_0;
            assert(deletion_outcome(plan, component_index, Ok(rs)));
            lemma_edit_limits(p, plan, rs@);
        }
    }
    rebuild_edit(plan, d, GuidanceRebuildPolicy::PreserveByRowUid)
}

/// `b` says whether deleting component `component_index` of `plan` succeeds:
/// whether the outcome that `delete_component` gives is a plan.
pub open spec fn removal_succeeds(plan: FlightPlan, component_index: usize, b: bool) -> bool {
    exists|
        n: FlightPlan,
        d: Result<Vec<RebuiltRouteComponent>, AppError>,
        r: Result<FlightPlan, AppError>,
    |
        #[trigger] normalized_from(plan, n) && #[trigger] deletion_outcome(n, component_index, d)
            && #[trigger] edit_outcome(n, d, GuidanceRebuildPolicy::PreserveByRowUid, r) && b == (
        r is Ok)
}

/// The machine limits of deleting any component of `plan`.
pub open spec fn removals_within_limits(plan: FlightPlan) -> bool {
    &&& plan.route_component_uid_counter + 2 * plan.route_components.len() <= u64::MAX
    &&& forall|i: usize, n: FlightPlan, rs: Vec<RebuiltRouteComponent>|
        #[trigger] normalized_from(plan, n) && #[trigger] deletion_outcome(n, i, Ok(rs))
            ==> edit_within_limits(plan, rs@)
}

/// Whether component `component_index` of the normalised `plan` can be
/// deleted: whether `delete_component` would give a plan. `plan` itself is
/// left as it is.
pub fn can_remove_component(plan: &FlightPlan, component_index: usize) -> (r: bool)
    requires
        normalized_from(*plan, *plan),
        plan_within_limits(*plan),
        plan.route_components.len() <= isize::MAX,
        forall|rs: Vec<RebuiltRouteComponent>|
            #[trigger] deletion_outcome(*plan, component_index, Ok(rs)) ==> rebuild_within_limits(
                *plan,
                rs@,
            ),
    ensures
        removal_succeeds(*plan, component_index, r),
{
    proof {
        lemma_normal_uids_distinct(
            string_texts(plan.route_component_uids@),
            plan.route_components.len() as nat,
            plan.route_component_uid_counter as int,
        );
        assert(string_texts(plan.route_component_uids@).len() == plan.route_component_uids@.len());
    }
    let d = deletion_components(plan, component_index);
    let ghost dd = d;
    match d {
        Err(e) => {
            proof {
                let r0 = Err::<FlightPlan, AppError>(e);
                assert(edit_outcome(*plan, dd, GuidanceRebuildPolicy::PreserveByRowUid, r0));
            }
            false
        },
        Ok(rs) => {
            let r0 = rebuild_normalized(
                Ghost(*plan),
                plan,
                rs,
                GuidanceRebuildPolicy::PreserveByRowUid,
            );
            proof {
                assert(edit_outcome(*plan, dd, GuidanceRebuildPolicy::PreserveByRowUid, r0));
            }
            r0.is_ok()
        },
    }
}

/// Deletes waypoint component `component_index` (a grouped component must
/// be flattened or removed whole) and rebuilds the plan.
pub fn delete_waypoint_component(
    plan: FlightPlan,
    component_index: usize,
) -> (r: Result<FlightPlan, AppError>)
    requires
        plan_within_limits(plan),
        plan.route_components.len() <= isize::MAX,
        forall|n: FlightPlan, rs: Vec<RebuiltRouteComponent>|
            #[trigger] normalized_from(plan, n) && #[trigger] waypoint_deletion_outcome(
                n,
                component_index,
                Ok(rs),
            ) ==> edit_within_limits(plan, rs@),
    ensures
        exists|n: FlightPlan, d: Result<Vec<RebuiltRouteComponent>, AppError>|
            #[trigger] normalized_from(plan, n) && #[trigger] waypoint_deletion_outcome(
                n,
                component_index,
                d,
            )
                && edit_outcome(n, d, GuidanceRebuildPolicy::PreserveByRowUid, r),
{
    let ghost p = plan;
    let plan = plan.normalized();
    let d = waypoint_deletion_components(&plan, component_index);
    proof {
        if d is Ok {
            let rs = d->Ok_0;
            assert(waypoint_deletion_outcome(plan, component_index, Ok(rs)));
            lemma_edit_limits(p, plan, rs@);
        }
    }
    rebuild_edit(plan, d, GuidanceRebuildPolicy::PreserveByRowUid)
}

/// Removes component `component_index` and every component before it, and
/// rebuilds the plan.
pub fn remove_all_above(
    plan: FlightPlan,
    component_index: usize,
) -> (r: Result<FlightPlan, AppError>)
    requires
        plan_within_limits(plan),
        plan.route_components.len() <= isize::MAX,
        forall|n: FlightPlan, rs: Vec<RebuiltRouteComponent>|
            #[trigger] normalized_from(plan, n) && #[trigger] remove_all_above_outcome(
                n,
                component_index,
                Ok(rs),
            ) ==> edit_within_limits(plan, rs@),
    ensures
        exists|n: FlightPlan, d: Result<Vec<RebuiltRouteComponent>, AppError>|
            #[trigger] normalized_from(plan, n) && #[trigger] remove_all_above_outcome(
                n,
                component_index,
                d,
            )
                && edit_outcome(n, d, GuidanceRebuildPolicy::PreserveByRowUid, r),
{
    let ghost p = plan;
    let plan = plan.normalized();
    let d = remove_all_above_components(&plan, component_index);
    proof {
        if d is Ok {
            let rs = d->Ok_0;
            assert(remove_all_above_outcome(plan, component_index, Ok(rs)));
            lemma_edit_limits(p, plan, rs@);
        }
    }
    rebuild_edit(plan, d, GuidanceRebuildPolicy::PreserveByRowUid)
}

/// Inserts `waypoint` before or after component `component_index`, and
/// rebuilds the plan.
pub fn insert_waypoint(
    plan: FlightPlan,
    component_index: usize,
    before: bool,
    waypoint: NavRef,
) -> (r: Result<FlightPlan, AppError>)
    requires
        plan_within_limits(plan),
        plan.route_components.len() <= isize::MAX,
        forall|n: FlightPlan, rs: Vec<RebuiltRouteComponent>|
            #[trigger] normalized_from(plan, n) && #[trigger] waypoint_insertion_outcome(
                n,
                component_index,
                before,
                waypoint,
                Ok(rs),
            ) ==> edit_within_limits(plan, rs@),
    ensures
        exists|n: FlightPlan, d: Result<Vec<RebuiltRouteComponent>, AppError>|
            #[trigger] normalized_from(plan, n) && #[trigger] waypoint_insertion_outcome(
                n,
                component_index,
                before,
                waypoint,
                d,
            )
                && edit_outcome(n, d, GuidanceRebuildPolicy::PreserveByRowUid, r),
{
    let ghost p = plan;
    let plan = plan.normalized();
    let d = waypoint_insertion_components(&plan, component_index, before, waypoint);
    proof {
        if d is Ok {
            let rs = d->Ok_0;
            assert(waypoint_insertion_outcome(plan, component_index, before, waypoint, Ok(rs)));
            lemma_edit_limits(p, plan, rs@);
        }
    }
    rebuild_edit(plan, d, GuidanceRebuildPolicy::PreserveByRowUid)
}

/// Inserts the airport `airport_id` (trimmed, in capitals) before or after
/// component `component_index`, and rebuilds the plan.
pub fn insert_airport_waypoint(
    plan: FlightPlan,
    component_index: usize,
    before: bool,
    airport_id: &str,
) -> (r: Result<FlightPlan, AppError>)
    requires
        plan_within_limits(plan),
        plan.route_components.len() <= isize::MAX,
        forall|n: FlightPlan, rs: Vec<RebuiltRouteComponent>|
            #[trigger] normalized_from(plan, n) && #[trigger] airport_waypoint_insertion_outcome(
                n,
                component_index,
                before,
                airport_id,
                Ok(rs),
            ) ==> edit_within_limits(plan, rs@),
    ensures
        exists|n: FlightPlan, d: Result<Vec<RebuiltRouteComponent>, AppError>|
            #[trigger] normalized_from(plan, n) && #[trigger] airport_waypoint_insertion_outcome(
                n,
                component_index,
                before,
                airport_id,
                d,
            )
                && edit_outcome(n, d, GuidanceRebuildPolicy::PreserveByRowUid, r),
{
    let ghost p = plan;
    let plan = plan.normalized();
    let d = airport_waypoint_insertion_components(&plan, component_index, before, airport_id);
    proof {
        if d is Ok {
            let rs = d->Ok_0;
            assert(airport_waypoint_insertion_outcome(
                plan,
                component_index,
                before,
                airport_id,
                Ok(rs),
            ));
            lemma_edit_limits(p, plan, rs@);
        }
    }
    rebuild_edit(plan, d, GuidanceRebuildPolicy::PreserveByRowUid)
}

/// Replaces grouped component `component_index` by the explicit waypoints
/// `waypoints`, and rebuilds the plan.
pub fn flatten_component_to_waypoints(
    plan: FlightPlan,
    component_index: usize,
    waypoints: Vec<NavRef>,
) -> (r: Result<FlightPlan, AppError>)
    requires
        plan_within_limits(plan),
        plan.route_components.len() <= isize::MAX,
        forall|n: FlightPlan, rs: Vec<RebuiltRouteComponent>|
            #[trigger] normalized_from(plan, n) && #[trigger] flattening_outcome(
                n,
                component_index,
                waypoints,
                Ok(rs),
            ) ==> edit_within_limits(plan, rs@),
    ensures
        exists|n: FlightPlan, d: Result<Vec<RebuiltRouteComponent>, AppError>|
            #[trigger] normalized_from(plan, n) && #[trigger] flattening_outcome(
                n,
                component_index,
                waypoints,
                d,
            )
                && edit_outcome(n, d, GuidanceRebuildPolicy::PreserveByRowUid, r),
{
    let ghost p = plan;
    let plan = plan.normalized();
    let d = flattening_components(&plan, component_index, waypoints);
    proof {
        if d is Ok {
            let rs = d->Ok_0;
            assert(flattening_outcome(plan, component_index, waypoints, Ok(rs)));
            lemma_edit_limits(p, plan, rs@);
        }
    }
    rebuild_edit(plan, d, GuidanceRebuildPolicy::PreserveByRowUid)
}

/// Removes the visible end waypoint `nav_ref` from airway component
/// `component_index`, and rebuilds the plan from what is left of it.
pub fn remove_airway_child_waypoint(
    plan: FlightPlan,
    component_index: usize,
    nav_ref: &NavRef,
) -> (r: Result<FlightPlan, AppError>)
    requires
        plan_within_limits(plan),
        plan.route_components.len() <= isize::MAX,
        forall|n: FlightPlan, rs: Vec<RebuiltRouteComponent>|
            #[trigger] normalized_from(plan, n) && #[trigger] airway_child_removal_outcome(
                n,
                component_index,
                *nav_ref,
                Ok(rs),
            ) ==> edit_within_limits(plan, rs@),
    ensures
        exists|n: FlightPlan, d: Result<Vec<RebuiltRouteComponent>, AppError>|
            #[trigger] normalized_from(plan, n) && #[trigger] airway_child_removal_outcome(
                n,
                component_index,
                *nav_ref,
                d,
            )
                && edit_outcome(n, d, GuidanceRebuildPolicy::PreserveByRowUid, r),
{
    let ghost p = plan;
    let plan = plan.normalized();
    let d = airway_child_removal_components(&plan, component_index, nav_ref);
    proof {
        if d is Ok {
            let rs = d->Ok_0;
            assert(airway_child_removal_outcome(plan, component_index, *nav_ref, Ok(rs)));
            lemma_edit_limits(p, plan, rs@);
        }
    }
    rebuild_edit(plan, d, GuidanceRebuildPolicy::PreserveByRowUid)
}

/// Puts `airway`, with its legs, in place of the waypoints between
/// components `start_component_index` and `end_component_index` (and of
/// those ends it starts or ends at), and rebuilds the plan.
pub fn insert_airway_between_waypoints(
    plan: FlightPlan,
    start_component_index: usize,
    end_component_index: usize,
    airway: AirwaySegment,
    airway_legs: Vec<ResolvedLeg>,
) -> (r: Result<FlightPlan, AppError>)
    requires
        plan_within_limits(plan),
        plan.route_components.len() <= isize::MAX,
        forall|n: FlightPlan, rs: Vec<RebuiltRouteComponent>|
            #[trigger] normalized_from(plan, n) && #[trigger] airway_insertion_outcome(
                n,
                start_component_index,
                end_component_index,
                airway,
                airway_legs,
                Ok(rs),
            ) ==> edit_within_limits(plan, rs@),
    ensures
        exists|
            n: FlightPlan,
            d: Result<Vec<RebuiltRouteComponent>, AppError>,
            r0: Result<FlightPlan, AppError>
        |
            #[trigger] normalized_from(plan, n) && #[trigger] airway_insertion_outcome(
                n,
                start_component_index,
                end_component_index,
                airway,
                airway_legs,
                d,
            )
                && #[trigger] edit_outcome(n, d, GuidanceRebuildPolicy::PreserveByRowUid, r0)
                && flyable_outcome(r0, "airway insertion"@, r),
{
    let ghost p = plan;
    let plan = plan.normalized();
    let d = airway_insertion_components(
        &plan,
        start_component_index,
        end_component_index,
        airway,
        airway_legs,
    );
    proof {
        if d is Ok {
            let rs = d->Ok_0;
            assert(airway_insertion_outcome(
                plan,
                start_component_index,
                end_component_index,
                airway,
                airway_legs,
                Ok(rs),
            ));
            lemma_edit_limits(p, plan, rs@);
        }
    }
    let r0 = rebuild_edit(plan, d, GuidanceRebuildPolicy::PreserveByRowUid);
    require_flyable(r0, "airway insertion")
}

/// Appends `airway`, with its legs, after the route's last waypoint
/// `start_component_index`, and rebuilds the plan.
pub fn insert_airway_after_waypoint(
    plan: FlightPlan,
    start_component_index: usize,
    airway: AirwaySegment,
    airway_legs: Vec<ResolvedLeg>,
) -> (r: Result<FlightPlan, AppError>)
    requires
        plan_within_limits(plan),
        plan.route_components.len() <= isize::MAX,
        forall|n: FlightPlan, rs: Vec<RebuiltRouteComponent>|
            #[trigger] normalized_from(plan, n) && #[trigger] airway_tail_insertion_outcome(
                n,
                start_component_index,
                airway,
                airway_legs,
                Ok(rs),
            ) ==> edit_within_limits(plan, rs@),
    ensures
        exists|
            n: FlightPlan,
            d: Result<Vec<RebuiltRouteComponent>, AppError>,
            r0: Result<FlightPlan, AppError>
        |
            #[trigger] normalized_from(plan, n) && #[trigger] airway_tail_insertion_outcome(
                n,
                start_component_index,
                airway,
                airway_legs,
                d,
            )
                && #[trigger] edit_outcome(n, d, GuidanceRebuildPolicy::PreserveByRowUid, r0)
                && flyable_outcome(r0, "airway insertion"@, r),
{
    let ghost p = plan;
    let plan = plan.normalized();
    let d = airway_tail_insertion_components(&plan, start_component_index, airway, airway_legs);
    proof {
        if d is Ok {
            let rs = d->Ok_0;
            assert(airway_tail_insertion_outcome(
                plan,
                start_component_index,
                airway,
                airway_legs,
                Ok(rs),
            ));
            lemma_edit_limits(p, plan, rs@);
        }
    }
    let r0 = rebuild_edit(plan, d, GuidanceRebuildPolicy::PreserveByRowUid);
    require_flyable(r0, "airway insertion")
}

/// Appends `airway`, with its legs, after the route's last airway
/// `start_component_index`, which must end where it starts, and rebuilds
/// the plan.
pub fn insert_airway_after_airway(
    plan: FlightPlan,
    start_component_index: usize,
    airway: AirwaySegment,
    airway_legs: Vec<ResolvedLeg>,
) -> (r: Result<FlightPlan, AppError>)
    requires
        plan_within_limits(plan),
        plan.route_components.len() <= isize::MAX,
        forall|n: FlightPlan, rs: Vec<RebuiltRouteComponent>|
            #[trigger] normalized_from(plan, n) && #[trigger] airway_chaining_outcome(
                n,
                start_component_index,
                airway,
                airway_legs,
                Ok(rs),
            ) ==> edit_within_limits(plan, rs@),
    ensures
        exists|
            n: FlightPlan,
            d: Result<Vec<RebuiltRouteComponent>, AppError>,
            r0: Result<FlightPlan, AppError>
        |
            #[trigger] normalized_from(plan, n) && #[trigger] airway_chaining_outcome(
                n,
                start_component_index,
                airway,
                airway_legs,
                d,
            )
                && #[trigger] edit_outcome(n, d, GuidanceRebuildPolicy::PreserveByRowUid, r0)
                && flyable_outcome(r0, "airway insertion"@, r),
{
    let ghost p = plan;
    let plan = plan.normalized();
    let d = airway_chaining_components(&plan, start_component_index, airway, airway_legs);
    proof {
        if d is Ok {
            let rs = d->Ok_0;
            assert(airway_chaining_outcome(
                plan,
                start_component_index,
                airway,
                airway_legs,
                Ok(rs),
            ));
            lemma_edit_limits(p, plan, rs@);
        }
    }
    let r0 = rebuild_edit(plan, d, GuidanceRebuildPolicy::PreserveByRowUid);
    require_flyable(r0, "airway insertion")
}

/// Puts `procedure`, with its legs, in place of the waypoints between
/// components `start_component_index` and `end_component_index`, and
/// rebuilds the plan.
pub fn insert_procedure_between_waypoints(
    plan: FlightPlan,
    start_component_index: usize,
    end_component_index: usize,
    procedure: ProcedureSegment,
    procedure_legs: Vec<ResolvedLeg>,
) -> (r: Result<FlightPlan, AppError>)
    requires
        plan_within_limits(plan),
        plan.route_components.len() <= isize::MAX,
        forall|n: FlightPlan, rs: Vec<RebuiltRouteComponent>|
            #[trigger] normalized_from(plan, n) && #[trigger] procedure_insertion_outcome(
                n,
                start_component_index,
                end_component_index,
                procedure,
                procedure_legs,
                Ok(rs),
            ) ==> edit_within_limits(plan, rs@),
    ensures
        exists|
            n: FlightPlan,
            d: Result<Vec<RebuiltRouteComponent>, AppError>,
            r0: Result<FlightPlan, AppError>
        |
            #[trigger] normalized_from(plan, n) && #[trigger] procedure_insertion_outcome(
                n,
                start_component_index,
                end_component_index,
                procedure,
                procedure_legs,
                d,
            )
                && #[trigger] edit_outcome(n, d, GuidanceRebuildPolicy::PreserveByRowUid, r0)
                && flyable_outcome(r0, "procedure insertion"@, r),
{
    let ghost p = plan;
    let plan = plan.normalized();
    let d = procedure_insertion_components(
        &plan,
        start_component_index,
        end_component_index,
        procedure,
        procedure_legs,
    );
    proof {
        if d is Ok {
            let rs = d->Ok_0;
            assert(procedure_insertion_outcome(
                plan,
                start_component_index,
                end_component_index,
                procedure,
                procedure_legs,
                Ok(rs),
            ));
            lemma_edit_limits(p, plan, rs@);
        }
    }
    let r0 = rebuild_edit(plan, d, GuidanceRebuildPolicy::PreserveByRowUid);
    require_flyable(r0, "procedure insertion")
}

/// Inserts the arrival or approach `procedure`, with its legs, where it
/// belongs before the destination airport component
/// `airport_component_index`, and rebuilds the plan.
pub fn insert_terminal_procedure_before_airport(
    plan: FlightPlan,
    airport_component_index: usize,
    procedure: ProcedureSegment,
    procedure_legs: Vec<ResolvedLeg>,
) -> (r: Result<FlightPlan, AppError>)
    requires
        plan_within_limits(plan),
        plan.route_components.len() <= isize::MAX,
        forall|n: FlightPlan, rs: Vec<RebuiltRouteComponent>|
            #[trigger] normalized_from(plan, n) && #[trigger] terminal_procedure_insertion_outcome(
                n,
                airport_component_index,
                procedure,
                procedure_legs,
                Ok(rs),
            ) ==> edit_within_limits(plan, rs@),
    ensures
        exists|
            n: FlightPlan,
            d: Result<Vec<RebuiltRouteComponent>, AppError>,
            r0: Result<FlightPlan, AppError>
        |
            #[trigger] normalized_from(plan, n) && #[trigger] terminal_procedure_insertion_outcome(
                n,
                airport_component_index,
                procedure,
                procedure_legs,
                d,
            )
                && #[trigger] edit_outcome(n, d, GuidanceRebuildPolicy::PreserveByRowUid, r0)
                && flyable_outcome(r0, "terminal procedure insertion"@, r),
{
    let ghost p = plan;
    let plan = plan.normalized();
    let d = terminal_procedure_insertion_components(
        &plan,
        airport_component_index,
        procedure,
        procedure_legs,
    );
    proof {
        if d is Ok {
            let rs = d->Ok_0;
            assert(terminal_procedure_insertion_outcome(
                plan,
                airport_component_index,
                procedure,
                procedure_legs,
                Ok(rs),
            ));
            lemma_edit_limits(p, plan, rs@);
        }
    }
    let r0 = rebuild_edit(plan, d, GuidanceRebuildPolicy::PreserveByRowUid);
    require_flyable(r0, "terminal procedure insertion")
}

/// Inserts `procedure`, with its legs, before the airport that is the
/// route's first component, and rebuilds the plan.
pub fn insert_initial_procedure_before_airport(
    plan: FlightPlan,
    airport_component_index: usize,
    procedure: ProcedureSegment,
    procedure_legs: Vec<ResolvedLeg>,
) -> (r: Result<FlightPlan, AppError>)
    requires
        plan_within_limits(plan),
        plan.route_components.len() <= isize::MAX,
        forall|n: FlightPlan, rs: Vec<RebuiltRouteComponent>|
            #[trigger] normalized_from(plan, n) && #[trigger] initial_procedure_insertion_outcome(
                n,
                airport_component_index,
                procedure,
                procedure_legs,
                Ok(rs),
            ) ==> edit_within_limits(plan, rs@),
    ensures
        exists|
            n: FlightPlan,
            d: Result<Vec<RebuiltRouteComponent>, AppError>,
            r0: Result<FlightPlan, AppError>
        |
            #[trigger] normalized_from(plan, n) && #[trigger] initial_procedure_insertion_outcome(
                n,
                airport_component_index,
                procedure,
                procedure_legs,
                d,
            )
                && #[trigger] edit_outcome(n, d, GuidanceRebuildPolicy::PreserveByRowUid, r0)
                && flyable_outcome(r0, "terminal procedure insertion"@, r),
{
    let ghost p = plan;
    let plan = plan.normalized();
    let d = initial_procedure_insertion_components(
        &plan,
        airport_component_index,
        procedure,
        procedure_legs,
    );
    proof {
        if d is Ok {
            let rs = d->Ok_0;
            assert(initial_procedure_insertion_outcome(
                plan,
                airport_component_index,
                procedure,
                procedure_legs,
                Ok(rs),
            ));
            lemma_edit_limits(p, plan, rs@);
        }
    }
    let r0 = rebuild_edit(plan, d, GuidanceRebuildPolicy::PreserveByRowUid);
    require_flyable(r0, "terminal procedure insertion")
}

/// Inserts the departure `procedure`, with its legs, after the origin
/// airport, the route's first component, and rebuilds the plan.
pub fn insert_departure_after_airport(
    plan: FlightPlan,
    airport_component_index: usize,
    procedure: ProcedureSegment,
    procedure_legs: Vec<ResolvedLeg>,
) -> (r: Result<FlightPlan, AppError>)
    requires
        plan_within_limits(plan),
        plan.route_components.len() <= isize::MAX,
        forall|n: FlightPlan, rs: Vec<RebuiltRouteComponent>|
            #[trigger] normalized_from(plan, n) && #[trigger] departure_insertion_outcome(
                n,
                airport_component_index,
                procedure,
                procedure_legs,
                Ok(rs),
            ) ==> edit_within_limits(plan, rs@),
    ensures
        exists|
            n: FlightPlan,
            d: Result<Vec<RebuiltRouteComponent>, AppError>,
            r0: Result<FlightPlan, AppError>
        |
            #[trigger] normalized_from(plan, n) && #[trigger] departure_insertion_outcome(
                n,
                airport_component_index,
                procedure,
                procedure_legs,
                d,
            )
                && #[trigger] edit_outcome(n, d, GuidanceRebuildPolicy::PreserveByRowUid, r0)
                && flyable_outcome(r0, "departure insertion"@, r),
{
    let ghost p = plan;
    let plan = plan.normalized();
    let d = departure_insertion_components(
        &plan,
        airport_component_index,
        procedure,
        procedure_legs,
    );
    proof {
        if d is Ok {
            let rs = d->Ok_0;
            assert(departure_insertion_outcome(
                plan,
                airport_component_index,
                procedure,
                procedure_legs,
                Ok(rs),
            ));
            lemma_edit_limits(p, plan, rs@);
        }
    }
    let r0 = rebuild_edit(plan, d, GuidanceRebuildPolicy::PreserveByRowUid);
    require_flyable(r0, "departure insertion")
}

/// Replaces airway component `component_index` by `airway`, with its legs,
/// keeping its uid, and rebuilds the plan.
pub fn replace_airway_component(
    plan: FlightPlan,
    component_index: usize,
    airway: AirwaySegment,
    airway_legs: Vec<ResolvedLeg>,
) -> (r: Result<FlightPlan, AppError>)
    requires
        plan_within_limits(plan),
        plan.route_components.len() <= isize::MAX,
        forall|n: FlightPlan, rs: Vec<RebuiltRouteComponent>|
            #[trigger] normalized_from(plan, n) && #[trigger] airway_replacement_outcome(
                n,
                component_index,
                airway,
                airway_legs,
                Ok(rs),
            ) ==> edit_within_limits(plan, rs@),
    ensures
        exists|
            n: FlightPlan,
            d: Result<Vec<RebuiltRouteComponent>, AppError>,
            r0: Result<FlightPlan, AppError>
        |
            #[trigger] normalized_from(plan, n) && #[trigger] airway_replacement_outcome(
                n,
                component_index,
                airway,
                airway_legs,
                d,
            )
                && #[trigger] edit_outcome(n, d, GuidanceRebuildPolicy::PreserveByRowUid, r0)
                && flyable_outcome(r0, "airway replacement"@, r),
{
    let ghost p = plan;
    let plan = plan.normalized();
    let d = airway_replacement_components(&plan, component_index, airway, airway_legs);
    proof {
        if d is Ok {
            let rs = d->Ok_0;
            assert(airway_replacement_outcome(plan, component_index, airway, airway_legs, Ok(rs)));
            lemma_edit_limits(p, plan, rs@);
        }
    }
    let r0 = rebuild_edit(plan, d, GuidanceRebuildPolicy::PreserveByRowUid);
    require_flyable(r0, "airway replacement")
}

/// Moves the entry of airway component `component_index` to `entry`, with
/// the airway's new legs, and rebuilds the plan.
pub fn change_airway_entry(
    plan: FlightPlan,
    component_index: usize,
    entry: NavRef,
    airway_legs: Vec<ResolvedLeg>,
) -> (r: Result<FlightPlan, AppError>)
    requires
        plan_within_limits(plan),
        plan.route_components.len() <= isize::MAX,
        forall|n: FlightPlan, rs: Vec<RebuiltRouteComponent>|
            #[trigger] normalized_from(plan, n) && #[trigger] airway_endpoint_change_outcome(
                n,
                component_index,
                entry,
                true,
                airway_legs,
                Ok(rs),
            ) ==> edit_within_limits(plan, rs@),
    ensures
        exists|
            n: FlightPlan,
            d: Result<Vec<RebuiltRouteComponent>, AppError>,
            r0: Result<FlightPlan, AppError>
        |
            #[trigger] normalized_from(plan, n) && #[trigger] airway_endpoint_change_outcome(
                n,
                component_index,
                entry,
                true,
                airway_legs,
                d,
            )
                && #[trigger] edit_outcome(n, d, GuidanceRebuildPolicy::PreserveByRowUid, r0)
                && flyable_outcome(r0, "airway replacement"@, r),
{
    let ghost p = plan;
    let plan = plan.normalized();
    let d = airway_endpoint_change_components(&plan, component_index, entry, true, airway_legs);
    proof {
        if d is Ok {
            let rs = d->Ok_0;
            assert(airway_endpoint_change_outcome(
                plan,
                component_index,
                entry,
                true,
                airway_legs,
                Ok(rs),
            ));
            lemma_edit_limits(p, plan, rs@);
        }
    }
    let r0 = rebuild_edit(plan, d, GuidanceRebuildPolicy::PreserveByRowUid);
    require_flyable(r0, "airway replacement")
}

/// Moves the exit of airway component `component_index` to `exit`, with the
/// airway's new legs, and rebuilds the plan.
pub fn change_airway_exit(
    plan: FlightPlan,
    component_index: usize,
    exit: NavRef,
    airway_legs: Vec<ResolvedLeg>,
) -> (r: Result<FlightPlan, AppError>)
    requires
        plan_within_limits(plan),
        plan.route_components.len() <= isize::MAX,
        forall|n: FlightPlan, rs: Vec<RebuiltRouteComponent>|
            #[trigger] normalized_from(plan, n) && #[trigger] airway_endpoint_change_outcome(
                n,
                component_index,
                exit,
                false,
                airway_legs,
                Ok(rs),
            ) ==> edit_within_limits(plan, rs@),
    ensures
        exists|
            n: FlightPlan,
            d: Result<Vec<RebuiltRouteComponent>, AppError>,
            r0: Result<FlightPlan, AppError>
        |
            #[trigger] normalized_from(plan, n) && #[trigger] airway_endpoint_change_outcome(
                n,
                component_index,
                exit,
                false,
                airway_legs,
                d,
            )
                && #[trigger] edit_outcome(n, d, GuidanceRebuildPolicy::PreserveByRowUid, r0)
                && flyable_outcome(r0, "airway replacement"@, r),
{
    let ghost p = plan;
    let plan = plan.normalized();
    let d = airway_endpoint_change_components(&plan, component_index, exit, false, airway_legs);
    proof {
        if d is Ok {
            let rs = d->Ok_0;
            assert(airway_endpoint_change_outcome(
                plan,
                component_index,
                exit,
                false,
                airway_legs,
                Ok(rs),
            ));
            lemma_edit_limits(p, plan, rs@);
        }
    }
    let r0 = rebuild_edit(plan, d, GuidanceRebuildPolicy::PreserveByRowUid);
    require_flyable(r0, "airway replacement")
}

/// Replaces procedure component `component_index` by `procedure`, with its
/// legs, keeping its uid, and rebuilds the plan without guidance.
pub fn replace_procedure_component(
    plan: FlightPlan,
    component_index: usize,
    procedure: ProcedureSegment,
    procedure_legs: Vec<ResolvedLeg>,
) -> (r: Result<FlightPlan, AppError>)
    requires
        plan_within_limits(plan),
        plan.route_components.len() <= isize::MAX,
        forall|n: FlightPlan, rs: Vec<RebuiltRouteComponent>|
            #[trigger] normalized_from(plan, n) && #[trigger] procedure_replacement_outcome(
                n,
                component_index,
                procedure,
                procedure_legs,
                Ok(rs),
            ) ==> edit_within_limits(plan, rs@),
    ensures
        exists|
            n: FlightPlan,
            d: Result<Vec<RebuiltRouteComponent>, AppError>,
            r0: Result<FlightPlan, AppError>
        |
            #[trigger] normalized_from(plan, n) && #[trigger] procedure_replacement_outcome(
                n,
                component_index,
                procedure,
                procedure_legs,
                d,
            )
                && #[trigger] edit_outcome(n, d, GuidanceRebuildPolicy::Clear, r0)
                && flyable_outcome(r0, "procedure replacement"@, r),
{
    let ghost p = plan;
    let plan = plan.normalized();
    let d = procedure_replacement_components(&plan, component_index, procedure, procedure_legs);
    proof {
        if d is Ok {
            let rs = d->Ok_0;
            assert(procedure_replacement_outcome(
                plan,
                component_index,
                procedure,
                procedure_legs,
                Ok(rs),
            ));
            lemma_edit_limits(p, plan, rs@);
        }
    }
    let r0 = rebuild_edit(plan, d, GuidanceRebuildPolicy::Clear);
    require_flyable(r0, "procedure replacement")
}

/// Sets the en-route transition of procedure component `component_index`,
/// with the procedure's new legs, and rebuilds the plan without guidance.
pub fn change_procedure_enroute_transition(
    plan: FlightPlan,
    component_index: usize,
    enroute_transition: Option<String>,
    procedure_legs: Vec<ResolvedLeg>,
) -> (r: Result<FlightPlan, AppError>)
    requires
        plan_within_limits(plan),
        plan.route_components.len() <= isize::MAX,
        forall|n: FlightPlan, rs: Vec<RebuiltRouteComponent>|
            #[trigger] normalized_from(plan, n) && #[trigger] procedure_transition_change_outcome(
                n,
                component_index,
                enroute_transition,
                true,
                procedure_legs,
                Ok(rs),
            ) ==> edit_within_limits(plan, rs@),
    ensures
        exists|
            n: FlightPlan,
            d: Result<Vec<RebuiltRouteComponent>, AppError>,
            r0: Result<FlightPlan, AppError>
        |
            #[trigger] normalized_from(plan, n) && #[trigger] procedure_transition_change_outcome(
                n,
                component_index,
                enroute_transition,
                true,
                procedure_legs,
                d,
            )
                && #[trigger] edit_outcome(n, d, GuidanceRebuildPolicy::Clear, r0)
                && flyable_outcome(r0, "procedure replacement"@, r),
{
    let ghost p = plan;
    let plan = plan.normalized();
    let d = procedure_transition_change_components(
        &plan,
        component_index,
        enroute_transition,
        true,
        procedure_legs,
    );
    proof {
        if d is Ok {
            let rs = d->Ok_0;
            assert(procedure_transition_change_outcome(
                plan,
                component_index,
                enroute_transition,
                true,
                procedure_legs,
                Ok(rs),
            ));
            lemma_edit_limits(p, plan, rs@);
        }
    }
    let r0 = rebuild_edit(plan, d, GuidanceRebuildPolicy::Clear);
    require_flyable(r0, "procedure replacement")
}

/// Sets the runway transition of procedure component `component_index`,
/// with the procedure's new legs, and rebuilds the plan without guidance.
pub fn change_procedure_runway_transition(
    plan: FlightPlan,
    component_index: usize,
    runway_transition: Option<String>,
    procedure_legs: Vec<ResolvedLeg>,
) -> (r: Result<FlightPlan, AppError>)
    requires
        plan_within_limits(plan),
        plan.route_components.len() <= isize::MAX,
        forall|n: FlightPlan, rs: Vec<RebuiltRouteComponent>|
            #[trigger] normalized_from(plan, n) && #[trigger] procedure_transition_change_outcome(
                n,
                component_index,
                runway_transition,
                false,
                procedure_legs,
                Ok(rs),
            ) ==> edit_within_limits(plan, rs@),
    ensures
        exists|
            n: FlightPlan,
            d: Result<Vec<RebuiltRouteComponent>, AppError>,
            r0: Result<FlightPlan, AppError>
        |
            #[trigger] normalized_from(plan, n) && #[trigger] procedure_transition_change_outcome(
                n,
                component_index,
                runway_transition,
                false,
                procedure_legs,
                d,
            )
                && #[trigger] edit_outcome(n, d, GuidanceRebuildPolicy::Clear, r0)
                && flyable_outcome(r0, "procedure replacement"@, r),
{
    let ghost p = plan;
    let plan = plan.normalized();
    let d = procedure_transition_change_components(
        &plan,
        component_index,
        runway_transition,
        false,
        procedure_legs,
    );
    proof {
        if d is Ok {
            let rs = d->Ok_0;
            assert(procedure_transition_change_outcome(
                plan,
                component_index,
                runway_transition,
                false,
                procedure_legs,
                Ok(rs),
            ));
            lemma_edit_limits(p, plan, rs@);
        }
    }
    let r0 = rebuild_edit(plan, d, GuidanceRebuildPolicy::Clear);
    require_flyable(r0, "procedure replacement")
}

/// Moves component `component_index` by `delta` places and rebuilds the
/// plan; a move by no place gives the normalised plan as it is.
pub fn move_component(plan: FlightPlan, component_index: usize, delta: isize) -> (r: Result<
    FlightPlan,
    AppError,
>)
    requires
        plan_within_limits(plan),
        plan.route_components.len() <= isize::MAX,
        component_index < plan.route_components.len() ==> isize::MIN <= component_index + delta
            <= isize::MAX,
        forall|n: FlightPlan, rs: Vec<RebuiltRouteComponent>|
            #[trigger] normalized_from(plan, n) && #[trigger] move_outcome(
                n,
                component_index,
                delta,
                Ok(Some(rs)),
            ) ==> edit_within_limits(plan, rs@),
    ensures
        exists|n: FlightPlan, d: Result<Option<Vec<RebuiltRouteComponent>>, AppError>|
            #[trigger] normalized_from(plan, n) && #[trigger] move_outcome(
                n,
                component_index,
                delta,
                d,
            )
                && match d {
                Err(e) => r == Err::<FlightPlan, AppError>(e),
                Ok(None) => r == Ok::<FlightPlan, AppError>(n),
                Ok(Some(rs)) => rebuild_outcome(n, rs@, GuidanceRebuildPolicy::PreserveByRowUid, r),
            },
{
    let ghost p = plan;
    let plan = plan.normalized();
    let d = move_components(&plan, component_index, delta);
    match d {
        Err(e) => Err(e),
        Ok(None) => Ok(plan),
        Ok(Some(rs)) => {
            proof {
                assert(move_outcome(plan, component_index, delta, Ok(Some(rs))));
                lemma_edit_limits(p, plan, rs@);
            }
            rebuild_plan_from_uid_components(plan, rs, GuidanceRebuildPolicy::PreserveByRowUid)
        },
    }
}

/// Makes the exit of the airway before component `component_index` an
/// explicit waypoint when the route does not go on from it, rebuilding the
/// plan; gives the plan and the place the component is at afterwards.
pub fn materialize_airway_exit_before_component(plan: FlightPlan, component_index: usize) -> (r:
    Result<(FlightPlan, usize), AppError>)
    requires
        plan_within_limits(plan),
        plan.route_components.len() <= isize::MAX,
        forall|n: FlightPlan, rs: Vec<RebuiltRouteComponent>|
            #[trigger] normalized_from(plan, n) && #[trigger] airway_exit_materialization_outcome(
                n,
                component_index,
                Ok(Some(rs)),
            ) ==> edit_within_limits(plan, rs@),
    ensures
        exists|n: FlightPlan, d: Result<Option<Vec<RebuiltRouteComponent>>, AppError>|
            #[trigger] normalized_from(plan, n) && #[trigger] airway_exit_materialization_outcome(
                n,
                component_index,
                d,
            ) && match d {
                Err(e) => r == Err::<(FlightPlan, usize), AppError>(e),
                Ok(None) => r == Ok::<(FlightPlan, usize), AppError>((n, component_index)),
                Ok(Some(rs)) => exists|r0: Result<FlightPlan, AppError>|
                    #[trigger] rebuild_outcome(n, rs@, GuidanceRebuildPolicy::PreserveByRowUid, r0)
                        && match r0 {
                        Ok(q) => r == Ok::<(FlightPlan, usize), AppError>(
                            (q, (component_index + 1) as usize),
                        ),
                        Err(e) => r == Err::<(FlightPlan, usize), AppError>(e),
                    },
            },
{
    let ghost p = plan;
    let plan = plan.normalized();
    let d = airway_exit_materialization_components(&plan, component_index);
    match d {
        Err(e) => Err(e),
        Ok(None) => Ok((plan, component_index)),
        Ok(Some(rs)) => {
            proof {
                assert(airway_exit_materialization_outcome(plan, component_index, Ok(Some(rs))));
                lemma_edit_limits(p, plan, rs@);
            }
            match rebuild_plan_from_uid_components(plan, rs, GuidanceRebuildPolicy::PreserveByRowUid) {
                Ok(q) => Ok((q, component_index + 1)),
                Err(e) => Err(e),
            }
        },
    }
}

/// A procedure with the legs it resolves to.
pub struct MaterializedProcedure {
    pub procedure: ProcedureSegment,
    pub resolved_legs: Vec<ResolvedLeg>,
}

/// The replacement that the first `k` of `reps` give component `i`: the
/// last one for it.
pub open spec fn replacement_for(
    reps: Seq<(usize, RouteComponent, Vec<ResolvedLeg>)>,
    k: int,
    i: int,
) -> Option<(RouteComponent, Vec<ResolvedLeg>)>
    decreases k,
{
    if k <= 0 {
        None
    } else if reps[k - 1].0 == i {
        Some((reps[k - 1].1, reps[k - 1].2))
    } else {
        replacement_for(reps, k - 1, i)
    }
}

/// `rs` rebuilds the route of `p` with the replacements `reps`: every
/// component keeps its place and uid, and takes the component and legs of
/// its last replacement where it has one.
pub open spec fn nav_materialization_list(
    p: FlightPlan,
    reps: Seq<(usize, RouteComponent, Vec<ResolvedLeg>)>,
    rs: Seq<RebuiltRouteComponent>,
) -> bool {
    &&& rs.len() == p.route_components.len()
    &&& forall|i: int|
        0 <= i < rs.len() ==> match replacement_for(reps, reps.len() as int, i) {
            Some(rep) => #[trigger] rs[i] == (RebuiltRouteComponent {
                uid: uid_at(p, i),
                component: rep.0,
                preserved_legs: Some(rep.1),
            }),
            None => existing_component(p, i, rs[i]),
        }
}

/// The components that rebuilding the route of `plan` with the
/// replacements `replacements` (place, component, legs) rebuilds it from.
pub fn nav_materialization_components(
    plan: &FlightPlan,
    replacements: Vec<(usize, RouteComponent, Vec<ResolvedLeg>)>,
) -> (r: Vec<RebuiltRouteComponent>)
    ensures
        nav_materialization_list(*plan, replacements@, r@),
{
    let ghost reps = replacements@;
    let n = plan.route_components.len();
    let mut slots: Vec<Option<(RouteComponent, Vec<ResolvedLeg>)>> = Vec::new();
    let mut i: usize = 0;
    while i < n
        invariant
            i <= n,
            slots@.len() == i,
            forall|j: int| 0 <= j < i ==> #[trigger] slots@[j] is None,
        decreases n - i,
    {
        slots.push(None);
        i = i + 1;
    }
    let total = replacements.len();
    let mut rest = replacements;
    let mut k: usize = 0;
    while k < total
        invariant
            total == reps.len(),
            k <= total,
            rest@ == reps.subrange(k as int, total as int),
            slots@.len() == n,
            forall|j: int| 0 <= j < n ==> #[trigger] slots@[j] == replacement_for(reps, k as int, j),
        decreases total - k,
    {
        assert(rest@[0] == reps[k as int]);
        let (index, component, legs) = rest.remove(0);
        assert(rest@ =~= reps.subrange(k + 1, total as int));
        if index < n {
            slots.set(index, Some((component, legs)));
        }
        k = k + 1;
    }
    let grouped = grouped_component_legs(plan);
    let mut rs: Vec<RebuiltRouteComponent> = Vec::new();
    let mut pending = slots;
    let mut m: usize = 0;
    while m < n
        invariant
            m <= n,
            n == plan.route_components.len(),
            pending@ == slots@.subrange(m as int, n as int),
            slots@.len() == n,
            forall|j: int| 0 <= j < n ==> #[trigger] slots@[j] == replacement_for(reps, reps.len() as int, j),
            grouped.len() == plan.route_components.len(),
            forall|c: int|
                0 <= c < grouped.len() ==> match #[trigger] grouped@[c] {
                    Some(v) => crate::rebuild::spec_grouped_legs(*plan, c) == Some(v@),
                    None => crate::rebuild::spec_grouped_legs(*plan, c) is None,
                },
            rs@.len() == m,
            forall|i: int|
                0 <= i < m ==> match replacement_for(reps, reps.len() as int, i) {
                    Some(rep) => #[trigger] rs@[i] == (RebuiltRouteComponent {
                        uid: uid_at(*plan, i),
                        component: rep.0,
                        preserved_legs: Some(rep.1),
                    }),
                    None => existing_component(*plan, i, rs@[i]),
                },
        decreases n - m,
    {
        assert(pending@[0] == slots@[m as int]);
        let slot = pending.remove(0);
        assert(pending@ =~= slots@.subrange(m + 1, n as int));
        let ghost before = rs@;
        match slot {
            Some((component, legs)) => {
                let uid = if m < plan.route_component_uids.len() {
                    Some(plan.route_component_uids[m].clone())
                } else {
                    None
                };
                rs.push(RebuiltRouteComponent { uid, component, preserved_legs: Some(legs) });
            },
            None => {
                rs.push(rebuilt_existing_component(plan, &grouped, m));
            },
        }
        proof {
            assert forall|i: int| 0 <= i < m implies #[trigger] rs@[i] == before[i] by {}
        }
        m = m + 1;
    }
    rs
}

/// `r` is the outcome of rebuilding plan `plan`, once normalised, with
/// the replacements `reps`, carrying guidance over by its rows.
pub open spec fn nav_rebuild_outcome(
    plan: FlightPlan,
    reps: Seq<(usize, RouteComponent, Vec<ResolvedLeg>)>,
    r: Result<FlightPlan, AppError>,
) -> bool {
    exists|n: FlightPlan, rs: Seq<RebuiltRouteComponent>|
        #[trigger] normalized_from(plan, n) && #[trigger] nav_materialization_list(n, reps, rs)
            && rebuild_outcome(n, rs, GuidanceRebuildPolicy::PreserveByRowUid, r)
}

/// Rebuilds the plan with the replacements `replacements` (place,
/// component, legs), carrying guidance over by its rows.
pub fn rebuild_plan_with_nav_materializations(
    plan: FlightPlan,
    replacements: Vec<(usize, RouteComponent, Vec<ResolvedLeg>)>,
) -> (r: Result<FlightPlan, AppError>)
    requires
        plan_within_limits(plan),
        plan.route_components.len() <= isize::MAX,
        forall|n: FlightPlan, rs: Seq<RebuiltRouteComponent>|
            #[trigger] normalized_from(plan, n) && #[trigger] nav_materialization_list(
                n,
                replacements@,
                rs,
            ) ==> edit_within_limits(plan, rs),
    ensures
        nav_rebuild_outcome(plan, replacements@, r),
{
    let ghost p = plan;
    let plan = plan.normalized();
    let rs = nav_materialization_components(&plan, replacements);
    proof {
        lemma_edit_limits(p, plan, rs@);
    }
    rebuild_plan_from_uid_components(plan, rs, GuidanceRebuildPolicy::PreserveByRowUid)
}

/// The place of the procedure in the route that checks a materialised
/// procedure: after its airport for a departure, before it otherwise.
pub open spec fn probe_procedure_index(kind: ProcedureKind) -> usize {
    match kind {
        ProcedureKind::Sid => 1,
        _ => 0,
    }
}

/// `q` is the route that checks materialised procedure `m`: an empty plan
/// with just the procedure and its airport, in the order the procedure's
/// kind calls for.
pub open spec fn probe_plan(m: MaterializedProcedure, q: FlightPlan) -> bool {
    let i = probe_procedure_index(m.procedure.kind) as int;
    &&& q.id@ == "plan-empty"@
    &&& q.name@ == "Flight Plan"@
    &&& q.route_components@.len() == 2
    &&& q.route_components@[i] matches RouteComponent::Procedure { procedure } && same_procedure(
        procedure,
        m.procedure,
    )
    &&& q.route_components@[1 - i] matches RouteComponent::Waypoint { waypoint: NavRef::Airport(id) }
        && id@ == m.procedure.airport_id.0@
    &&& q.route_component_uids@.len() == 0
    &&& q.route_component_uid_counter == 0
    &&& q.resolved_legs@.len() == 0
    &&& q.guidance is None
    &&& q.departure is None
    &&& q.destination is None
    &&& q.alternate is None
    &&& q.cruise_altitude_ft is None
    &&& q.planned_departure_time_epoch_ms is None
    &&& q.notes is None
    &&& q.updated_at_epoch_ms == 0
    &&& q.version == 1
}

/// `reps` replaces the procedure of the checking route by itself, with the
/// legs it materialised to.
pub open spec fn probe_replacements(
    m: MaterializedProcedure,
    reps: Seq<(usize, RouteComponent, Vec<ResolvedLeg>)>,
) -> bool {
    &&& reps.len() == 1
    &&& reps[0].0 == probe_procedure_index(m.procedure.kind)
    &&& reps[0].1 matches RouteComponent::Procedure { procedure } && same_procedure(procedure, m.procedure)
    &&& reps[0].2@ == m.resolved_legs@
}

/// Checks that a materialised procedure survives the production rebuild of
/// the route it would stand in: the procedure alone beside its airport.
pub fn validate_materialized_procedure_final_route(materialized: &MaterializedProcedure) -> (r: Result<
    (),
    AppError,
>)
    requires
        forall|q: FlightPlan,
            reps: Seq<(usize, RouteComponent, Vec<ResolvedLeg>)>,
            n: FlightPlan,
            rs: Seq<RebuiltRouteComponent>|
            #[trigger] probe_plan(*materialized, q) && #[trigger] probe_replacements(*materialized, reps)
                && #[trigger] normalized_from(q, n) && #[trigger] nav_materialization_list(n, reps, rs)
                ==> edit_within_limits(q, rs),
    ensures
        exists|
            q: FlightPlan,
            reps: Seq<(usize, RouteComponent, Vec<ResolvedLeg>)>,
            r0: Result<FlightPlan, AppError>
        |
            #[trigger] probe_plan(*materialized, q) && #[trigger] probe_replacements(*materialized, reps)
                && #[trigger] nav_rebuild_outcome(q, reps, r0) && r == match r0 {
                Ok(_) => Ok::<(), AppError>(()),
                Err(e) => Err::<(), AppError>(e),
            },
{
    let component = RouteComponent::Procedure { procedure: materialized.procedure.duplicate() };
    let airport = RouteComponent::Waypoint {
        waypoint: NavRef::Airport(materialized.procedure.airport_id.0.clone()),
    };
    let procedure_index: usize = match materialized.procedure.kind {
        ProcedureKind::Sid => 1,
        _ => 0,
    };
    let mut route_components: Vec<RouteComponent> = Vec::new();
    if procedure_index == 1 {
        route_components.push(airport);
        route_components.push(component);
    } else {
        route_components.push(component);
        route_components.push(airport);
    }
    let empty = FlightPlan::empty();
    let plan = FlightPlan { route_components, ..empty };
    let mut legs: Vec<ResolvedLeg> = Vec::new();
    let mut k: usize = 0;
    while k < materialized.resolved_legs.len()
        invariant
            k <= materialized.resolved_legs@.len(),
            legs@ == materialized.resolved_legs@.take(k as int),
        decreases materialized.resolved_legs@.len() - k,
    {
        legs.push(materialized.resolved_legs[k].duplicate());
        assert(materialized.resolved_legs@.take(k + 1) =~= materialized.resolved_legs@.take(k as int).push(
            materialized.resolved_legs@[k as int],
        ));
        k = k + 1;
    }
    assert(materialized.resolved_legs@.take(materialized.resolved_legs@.len() as int)
        =~= materialized.resolved_legs@);
    let mut replacements: Vec<(usize, RouteComponent, Vec<ResolvedLeg>)> = Vec::new();
    replacements.push(
        (procedure_index, RouteComponent::Procedure { procedure: materialized.procedure.duplicate() }, legs),
    );
    let ghost q = plan;
    let ghost reps = replacements@;
    proof {
        reveal_strlit("plan-empty");
        reveal_strlit("Flight Plan");
        assert(probe_plan(*materialized, q));
        assert(probe_replacements(*materialized, reps));
        assert(details_fit(q));
    }
    let r0 = rebuild_plan_with_nav_materializations(plan, replacements);
    proof {
        assert(nav_rebuild_outcome(q, reps, r0));
    }
    match r0 {
        Ok(_) => Ok(()),
        Err(e) => Err(e),
    }
}

/// `d` is what listing the components of an airway replacement at
/// component `c` gives: the index error, or the components with `c`
/// replaced (or dropped) and, when `drop_before`, those before it dropped.
pub open spec fn airway_replacement_rebuild_outcome(
    p: FlightPlan,
    c: usize,
    replacement: Option<(RouteComponent, Option<Vec<ResolvedLeg>>)>,
    drop_before: bool,
    d: Result<Vec<RebuiltRouteComponent>, AppError>,
) -> bool {
    if c < p.route_components.len() {
        d matches Ok(rs) && airway_replacement_list(
            p,
            c as int,
            replacement_view(replacement),
            if drop_before {
                c as int
            } else {
                0
            },
            rs@,
        )
    } else {
        d matches Err(x) && error_of(x) == index_fault(c as int)
    }
}

/// Puts `replacement` (or nothing) in place of airway component
/// `component_index`, keeping its uid, optionally dropping the components
/// before it, and rebuilds the plan.
pub fn rebuild_with_airway_replacement(
    plan: FlightPlan,
    component_index: usize,
    replacement: Option<(RouteComponent, Option<Vec<ResolvedLeg>>)>,
    drop_before_target: bool,
) -> (r: Result<FlightPlan, AppError>)
    requires
        plan_within_limits(plan),
        plan.route_components.len() <= isize::MAX,
        forall|n: FlightPlan, rs: Vec<RebuiltRouteComponent>|
            #[trigger] normalized_from(plan, n) && #[trigger] airway_replacement_rebuild_outcome(
                n,
                component_index,
                replacement,
                drop_before_target,
                Ok(rs),
            ) ==> edit_within_limits(plan, rs@),
    ensures
        exists|n: FlightPlan, d: Result<Vec<RebuiltRouteComponent>, AppError>|
            #[trigger] normalized_from(plan, n) && #[trigger] airway_replacement_rebuild_outcome(
                n,
                component_index,
                replacement,
                drop_before_target,
                d,
            ) && edit_outcome(n, d, GuidanceRebuildPolicy::PreserveByRowUid, r),
{
    let ghost p = plan;
    let ghost rep = replacement;
    let plan = plan.normalized();
    let d = airway_replacement_rebuild_components(
        &plan,
        component_index,
        replacement,
        drop_before_target,
    );
    proof {
        assert(airway_replacement_rebuild_outcome(
            plan,
            component_index,
            rep,
            drop_before_target,
            d,
        ));
        if d is Ok {
            let rs = d->Ok_0;
            assert(airway_replacement_rebuild_outcome(
                plan,
                component_index,
                rep,
                drop_before_target,
                Ok(rs),
            ));
            lemma_edit_limits(p, plan, rs@);
        }
    }
    rebuild_edit(plan, d, GuidanceRebuildPolicy::PreserveByRowUid)
}

} // verus!

verus! {

/// The span from `s` to `e` is not one an airway can replace: it does not
/// run forward between two waypoints with only waypoints between them.
pub open spec fn unusable_airway_span(cs: Seq<RouteComponent>, s: int, e: int) -> bool {
    ||| s >= e
    ||| e >= cs.len()
    ||| !(cs[s] is Waypoint)
    ||| !(cs[e] is Waypoint)
    ||| exists|k: int| s < k < e && !(#[trigger] cs[k] is Waypoint)
}

/// An airway inserted over a span that does not run forward between two
/// waypoints, with only waypoints between them, is refused as unsupported,
/// and no plan comes out.
pub proof fn law_unusable_airway_spans_are_refused(
    plan: FlightPlan,
    start_component_index: usize,
    end_component_index: usize,
    airway: AirwaySegment,
    airway_legs: Vec<ResolvedLeg>,
    n: FlightPlan,
    d: Result<Vec<RebuiltRouteComponent>, AppError>,
    r0: Result<FlightPlan, AppError>,
    r: Result<FlightPlan, AppError>,
)
    requires
        unusable_airway_span(
            plan.route_components@,
            start_component_index as int,
            end_component_index as int,
        ),
        normalized_from(plan, n),
        airway_insertion_outcome(
            n,
            start_component_index,
            end_component_index,
            airway,
            airway_legs,
            d,
        ),
        edit_outcome(n, d, GuidanceRebuildPolicy::PreserveByRowUid, r0),
        flyable_outcome(r0, "airway insertion"@, r),
    ensures
        r matches Err(x) && x.kind == AppErrorKind::UnsupportedOperation,
{
    assert(n.route_components@ == plan.route_components@);
}

/// The component is an airport waypoint.
pub open spec fn is_airport_waypoint(c: RouteComponent) -> bool {
    c matches RouteComponent::Waypoint { waypoint: NavRef::Airport(_) }
}

/// The refusals of a terminal procedure inserted before an airport, in the
/// order they are checked: only a STAR or an approach, with legs, before an
/// airport waypoint that ends the route and is the procedure's airport, and
/// that has no procedure of the same kind yet.
pub proof fn law_terminal_procedure_refusals(
    plan: FlightPlan,
    airport_component_index: usize,
    procedure: ProcedureSegment,
    procedure_legs: Vec<ResolvedLeg>,
    n: FlightPlan,
    d: Result<Vec<RebuiltRouteComponent>, AppError>,
    r0: Result<FlightPlan, AppError>,
    r: Result<FlightPlan, AppError>,
)
    requires
        normalized_from(plan, n),
        terminal_procedure_insertion_outcome(
            n,
            airport_component_index,
            procedure,
            procedure_legs,
            d,
        ),
        edit_outcome(n, d, GuidanceRebuildPolicy::PreserveByRowUid, r0),
        flyable_outcome(r0, "terminal procedure insertion"@, r),
    ensures
        procedure.kind == ProcedureKind::Sid ==> (r matches Err(x) && x.kind
            == AppErrorKind::InvalidFlightPlan),
        procedure.kind != ProcedureKind::Sid && procedure_legs@.len() == 0 ==> (r matches Err(x)
            && x.kind == AppErrorKind::InvalidFlightPlan),
        procedure.kind != ProcedureKind::Sid && procedure_legs@.len() > 0 && !(
        airport_component_index < plan.route_components.len() && is_airport_waypoint(plan.route_components@[airport_component_index as int]))
            ==> (r matches Err(x) && x.kind == AppErrorKind::UnsupportedOperation),
        procedure.kind != ProcedureKind::Sid && procedure_legs@.len() > 0
            && airport_component_index < plan.route_components.len() && airport_component_index + 1
            != plan.route_components.len() && is_airport_waypoint(plan.route_components@[airport_component_index as int])
            ==> (r matches Err(x) && x.kind == AppErrorKind::InvalidFlightPlan),
{
    assert(n.route_components@ == plan.route_components@);
}

} // verus!

verus! {

/// An airway appended at the route's last waypoint where it begins runs
/// between real waypoints: the route goes on as that waypoint, the airway
/// and the airway's exit as a waypoint of its own, which ends the route, and
/// from which another airway can be appended.
pub proof fn law_airway_from_the_last_waypoint_ends_at_its_exit(
    plan: FlightPlan,
    start_component_index: usize,
    airway: AirwaySegment,
    airway_legs: Vec<ResolvedLeg>,
    n: FlightPlan,
    d: Result<Vec<RebuiltRouteComponent>, AppError>,
    r0: Result<FlightPlan, AppError>,
    r: Result<FlightPlan, AppError>,
)
    requires
        normalized_from(plan, n),
        airway_tail_insertion_outcome(n, start_component_index, airway, airway_legs, d),
        edit_outcome(n, d, GuidanceRebuildPolicy::PreserveByRowUid, r0),
        flyable_outcome(r0, "airway insertion"@, r),
        r is Ok,
        start_component_index < plan.route_components.len(),
        waypoint_is(plan.route_components@, start_component_index as int, airway.entry),
    ensures
        ({
            let q = r->Ok_0;
            let s = start_component_index as int;
            &&& q.route_components@.len() == s + 3
            &&& same_component(q.route_components@[s], plan.route_components@[s])
            &&& q.route_components@[s + 1] == RouteComponent::Airway { airway }
            &&& q.route_components@[s + 2] == RouteComponent::Waypoint { waypoint: airway.exit }
            &&& spec_airway_tail_insertion(q.route_components@, s + 2) is Ok
        }),
{
    assert(n.route_components@ == plan.route_components@);
    let rs = d->Ok_0@;
    let s = start_component_index as int;
    assert(existing_component(n, s, rs[s]));
    let q = choose|q: FlightPlan| #[trigger] rebuilt_route(n, rs, q) && (r0 matches Ok(p) ==> p
        == FlightPlan { guidance: p.guidance, ..q });
    assert(q.route_components@ == components_of(rs));
    assert(components_of(rs)[s] == rs[s].component);
    assert(components_of(rs)[s + 1] == rs[s + 1].component);
    assert(components_of(rs)[s + 2] == rs[s + 2].component);
}

} // verus!
