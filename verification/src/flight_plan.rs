//! The stored flight plan: its route, the legs resolved from it, and the
//! drawn details of those legs that guidance steps through.
use crate::guidance::{
    GuidanceDetailRef, LegDisplayPathStyle, ProcedureSegmentRole, ResolvedLegSource,
};
use crate::nav::{nav_ref_eq, same_nav_ref, AirportId, NavRef};
use crate::route::{
    allocate_route_component_uid, spec_route_component_uid, PathTermination,
    ProcedureDiscontinuity, ProcedureKind, RouteComponent,
};
use crate::text::{
    decimal, lemma_hex16_injective, hex16, owned, push_decimal, push_str, str_eq, str_is_empty,
    string_texts,
};
use vstd::prelude::*;
use vstd::relations::injective_on;
use vstd::set_lib::{lemma_int_range, lemma_len_subset, lemma_map_size, set_int_range};

verus! {

/// How a procedure leg is drawn: its style, and how many segments and arcs
/// make up its drawn path.
#[derive(Clone, Copy, Debug, PartialEq, Eq, Structural)]
pub struct LegDisplayPath {
    pub style: LegDisplayPathStyle,
    pub element_count: usize,
}

/// Where a leg of a procedure comes from in the procedure's coding.
#[derive(Clone, Debug, PartialEq, Eq)]
pub struct ProcedureLegProvenance {
    pub airport_id: String,
    pub procedure_id: String,
    pub kind: ProcedureKind,
    pub role: ProcedureSegmentRole,
    pub path_termination: PathTermination,
    pub leg_sequence: i32,
    pub discontinuity_after: Option<ProcedureDiscontinuity>,
    pub display_path: Option<LegDisplayPath>,
}

/// One leg of the route as guidance flies it.
#[derive(Clone, Debug, PartialEq, Eq)]
pub struct ResolvedLeg {
    pub id: String,
    pub from: NavRef,
    pub to: NavRef,
    pub source: ResolvedLegSource,
    pub procedure_provenance: Option<ProcedureLegProvenance>,
}

/// A flight plan: the route the pilot built, the legs resolved from it, and
/// the guidance along them.
#[derive(Clone, Debug, PartialEq, Eq)]
pub struct FlightPlan {
    pub id: String,
    pub name: String,
    pub route_components: Vec<RouteComponent>,
    pub route_component_uids: Vec<String>,
    pub route_component_uid_counter: u64,
    pub resolved_legs: Vec<ResolvedLeg>,
    pub guidance: Option<crate::guidance::GuidanceState>,
    pub departure: Option<AirportId>,
    pub destination: Option<AirportId>,
    pub alternate: Option<AirportId>,
    pub cruise_altitude_ft: Option<i32>,
    pub planned_departure_time_epoch_ms: Option<i64>,
    pub notes: Option<String>,
    pub updated_at_epoch_ms: i64,
    pub version: u64,
}

/// The number of guidance details of a leg: one per drawn element of its
/// path, and one for a leg that draws nothing.
pub open spec fn leg_detail_count(leg: ResolvedLeg) -> nat {
    match leg.procedure_provenance {
        Some(p) => match p.display_path {
            Some(path) => if path.element_count == 0 {
                1
            } else {
                path.element_count as nat
            },
            None => 1,
        },
        None => 1,
    }
}

/// The number of guidance details of the first `n` legs.
pub open spec fn details_before(legs: Seq<ResolvedLeg>, n: int) -> nat
    decreases n,
{
    if n <= 0 {
        0
    } else {
        details_before(legs, n - 1) + leg_detail_count(legs[n - 1])
    }
}

/// The number of guidance details of the whole route.
pub open spec fn detail_total(legs: Seq<ResolvedLeg>) -> nat {
    details_before(legs, legs.len() as int)
}

/// Detail `d` is one of the details of leg `l`.
pub open spec fn detail_in_leg(legs: Seq<ResolvedLeg>, d: int, l: int) -> bool {
    0 <= l < legs.len() && details_before(legs, l) <= d < details_before(legs, l + 1)
}

/// The leg that detail `d` belongs to.
pub open spec fn detail_leg(legs: Seq<ResolvedLeg>, d: int) -> int {
    choose|l: int| detail_in_leg(legs, d, l)
}

/// The reference of detail `d`: its leg, that leg's id, and its place among
/// the leg's elements; none past the last detail of the route.
pub open spec fn spec_detail_ref(legs: Seq<ResolvedLeg>, d: int) -> Option<GuidanceDetailRef> {
    if 0 <= d < detail_total(legs) {
        let l = detail_leg(legs, d);
        Some(
            GuidanceDetailRef {
                detail_index: d as usize,
                leg_index: l as usize,
                leg_id: legs[l].id,
                element_index: (d - details_before(legs, l)) as usize,
            },
        )
    } else {
        None
    }
}

/// Each leg adds at least one detail.
pub proof fn lemma_details_grow(legs: Seq<ResolvedLeg>, i: int, j: int)
    requires
        0 <= i <= j,
    ensures
        details_before(legs, i) + (j - i) <= details_before(legs, j),
    decreases j - i,
{
    if i < j {
        lemma_details_grow(legs, i, j - 1);
    }
}

/// A detail belongs to exactly one leg.
pub proof fn lemma_detail_leg_unique(legs: Seq<ResolvedLeg>, d: int, l: int)
    requires
        detail_in_leg(legs, d, l),
    ensures
        detail_leg(legs, d) == l,
{
    let k = detail_leg(legs, d);
    assert(detail_in_leg(legs, d, k));
    if k < l {
        lemma_details_grow(legs, k + 1, l);
    } else if l < k {
        lemma_details_grow(legs, l + 1, k);
    }
}

/// A detail of the route lies in some leg.
pub proof fn lemma_detail_has_leg(legs: Seq<ResolvedLeg>, d: int)
    requires
        0 <= d < detail_total(legs),
    ensures
        detail_in_leg(legs, d, detail_leg(legs, d)),
    decreases legs.len(),
{
    let n = legs.len() as int;
    if d >= details_before(legs, n - 1) {
        assert(detail_in_leg(legs, d, n - 1));
    } else {
        let shorter = legs.drop_last();
        assert forall|k: int| k <= n - 1 implies details_before(shorter, k) == details_before(
            legs,
            k,
        ) by {
            lemma_details_prefix(legs, shorter, k);
        }
        lemma_detail_has_leg(shorter, d);
        let l = detail_leg(shorter, d);
        assert(details_before(shorter, l + 1) == details_before(legs, l + 1));
        assert(detail_in_leg(legs, d, l));
    }
}

/// Legs that agree on a prefix agree on its details.
proof fn lemma_details_prefix(a: Seq<ResolvedLeg>, b: Seq<ResolvedLeg>, k: int)
    requires
        k <= b.len(),
        b.len() <= a.len(),
        forall|i: int| 0 <= i < b.len() ==> a[i] == b[i],
    ensures
        details_before(a, k) == details_before(b, k),
    decreases k,
{
    if k > 0 {
        lemma_details_prefix(a, b, k - 1);
    }
}

impl LegDisplayPath {
    /// The number of guidance details of a leg drawn with this path.
    pub fn detail_count(&self) -> (n: usize)
        ensures
            n == if self.element_count == 0 {
                1
            } else {
                self.element_count
            },
    {
        if self.element_count == 0 {
            1
        } else {
            self.element_count
        }
    }
}

impl ResolvedLeg {
    /// The number of guidance details of this leg.
    pub fn detail_count(&self) -> (n: usize)
        ensures
            n == leg_detail_count(*self),
    {
        match &self.procedure_provenance {
            Some(p) => match &p.display_path {
                Some(path) => path.detail_count(),
                None => 1,
            },
            None => 1,
        }
    }
}

impl ProcedureLegProvenance {
    /// A copy of this provenance.
    pub fn duplicate(&self) -> (r: ProcedureLegProvenance)
        ensures
            r == *self,
    {
        ProcedureLegProvenance {
            airport_id: self.airport_id.clone(),
            procedure_id: self.procedure_id.clone(),
            kind: self.kind,
            role: self.role,
            path_termination: self.path_termination.duplicate(),
            leg_sequence: self.leg_sequence,
            discontinuity_after: match &self.discontinuity_after {
                Some(d) => Some(d.duplicate()),
                None => None,
            },
            display_path: self.display_path,
        }
    }
}

impl ResolvedLeg {
    /// A copy of this leg.
    pub fn duplicate(&self) -> (r: ResolvedLeg)
        ensures
            r == *self,
    {
        ResolvedLeg {
            id: self.id.clone(),
            from: self.from.duplicate(),
            to: self.to.duplicate(),
            source: self.source,
            procedure_provenance: match &self.procedure_provenance {
                Some(p) => Some(p.duplicate()),
                None => None,
            },
        }
    }
}

/// The guidance details of the route fit in memory.
pub open spec fn details_fit(plan: FlightPlan) -> bool {
    detail_total(plan.resolved_legs@) <= usize::MAX
}

/// Every guidance detail of the route, in order: each leg contributes one per
/// drawn element, or one if it draws nothing.
pub fn guidance_detail_refs(plan: &FlightPlan) -> (r: Vec<GuidanceDetailRef>)
    requires
        details_fit(*plan),
    ensures
        r.len() == detail_total(plan.resolved_legs@),
        forall|d: int| 0 <= d < r.len() ==> spec_detail_ref(plan.resolved_legs@, d) == Some(r[d]),
{
    let ghost legs = plan.resolved_legs@;
    let mut details: Vec<GuidanceDetailRef> = Vec::new();
    let mut detail_index: usize = 0;
    let mut leg_index: usize = 0;
    while leg_index < plan.resolved_legs.len()
        invariant
            legs == plan.resolved_legs@,
            detail_total(legs) <= usize::MAX,
            leg_index <= legs.len(),
            detail_index == details_before(legs, leg_index as int),
            details.len() == detail_index,
            forall|d: int|
                0 <= d < details.len() ==> spec_detail_ref(legs, d) == Some(#[trigger] details[d]),
        decreases legs.len() - leg_index,
    {
        let leg = &plan.resolved_legs[leg_index];
        let count = leg.detail_count();
        proof {
            lemma_details_grow(legs, leg_index + 1, legs.len() as int);
        }
        let mut element_index: usize = 0;
        while element_index < count
            invariant
                legs == plan.resolved_legs@,
                detail_total(legs) <= usize::MAX,
                leg_index < legs.len(),
                *leg == legs[leg_index as int],
                count == leg_detail_count(*leg),
                element_index <= count,
                details_before(legs, leg_index + 1) <= detail_total(legs),
                detail_index == details_before(legs, leg_index as int) + element_index,
                details.len() == detail_index,
                forall|d: int|
                    0 <= d < details.len() ==> spec_detail_ref(legs, d) == Some(
                        #[trigger] details[d],
                    ),
            decreases count - element_index,
        {
            proof {
                assert(detail_in_leg(legs, detail_index as int, leg_index as int));
                lemma_detail_leg_unique(legs, detail_index as int, leg_index as int);
            }
            details.push(
                GuidanceDetailRef {
                    detail_index,
                    leg_index,
                    leg_id: leg.id.clone(),
                    element_index,
                },
            );
            detail_index = detail_index + 1;
            element_index = element_index + 1;
        }
        leg_index = leg_index + 1;
    }
    details
}

/// The first guidance detail of a leg; none for a leg past the route's end.
pub fn first_guidance_detail_index_for_leg(plan: &FlightPlan, leg_index: usize) -> (r: Option<
    usize,
>)
    requires
        details_fit(*plan),
    ensures
        r == if leg_index < plan.resolved_legs.len() {
            Some(details_before(plan.resolved_legs@, leg_index as int) as usize)
        } else {
            None
        },
{
    let ghost legs = plan.resolved_legs@;
    if leg_index >= plan.resolved_legs.len() {
        return None;
    }
    let mut before: usize = 0;
    let mut i: usize = 0;
    proof {
        lemma_details_grow(legs, leg_index as int, legs.len() as int);
    }
    while i < leg_index
        invariant
            legs == plan.resolved_legs@,
            leg_index < legs.len(),
            i <= leg_index,
            before == details_before(legs, i as int),
            details_before(legs, leg_index as int) <= usize::MAX,
        decreases leg_index - i,
    {
        proof {
            lemma_details_grow(legs, i + 1, leg_index as int);
        }
        before = before + plan.resolved_legs[i].detail_count();
        i = i + 1;
    }
    Some(before)
}

/// The reference of guidance detail `detail_index`; none past the route's
/// last detail.
pub fn guidance_detail_ref_by_index(plan: &FlightPlan, detail_index: usize) -> (r: Option<
    GuidanceDetailRef,
>)
    requires
        details_fit(*plan),
    ensures
        r == spec_detail_ref(plan.resolved_legs@, detail_index as int),
{
    let ghost legs = plan.resolved_legs@;
    let mut before: usize = 0;
    let mut i: usize = 0;
    while i < plan.resolved_legs.len()
        invariant
            legs == plan.resolved_legs@,
            detail_total(legs) <= usize::MAX,
            i <= legs.len(),
            before == details_before(legs, i as int),
            before <= detail_index,
        decreases legs.len() - i,
    {
        proof {
            lemma_details_grow(legs, i + 1, legs.len() as int);
        }
        let leg = &plan.resolved_legs[i];
        let count = leg.detail_count();
        if detail_index - before < count {
            proof {
                assert(detail_in_leg(legs, detail_index as int, i as int));
                lemma_detail_leg_unique(legs, detail_index as int, i as int);
            }
            return Some(
                GuidanceDetailRef {
                    detail_index,
                    leg_index: i,
                    leg_id: leg.id.clone(),
                    element_index: detail_index - before,
                },
            );
        }
        before = before + count;
        i = i + 1;
    }
    None
}

/// The uid text of counter value `c`.
pub open spec fn uid_of(c: int) -> Seq<char> {
    spec_route_component_uid(c as u64)
}

/// `c` is the first counter value, from `from` on, whose uid is not among
/// `seen`.
pub open spec fn is_first_fresh(seen: Seq<Seq<char>>, from: int, c: int) -> bool {
    &&& from <= c
    &&& !seen.contains(uid_of(c))
    &&& forall|k: int| from <= k < c ==> seen.contains(#[trigger] uid_of(k))
}

/// The first counter value, from `from` on, whose uid is not among `seen`.
pub open spec fn first_fresh(seen: Seq<Seq<char>>, from: int) -> int {
    choose|c: int| is_first_fresh(seen, from, c)
}

/// The uids that normalisation gives the first `n` components, and the
/// counter after them. A component keeps its uid when that uid is not empty
/// and no earlier component has it; otherwise it gets the uid of the first
/// counter value whose uid no earlier component has, and the counter moves
/// past that value.
pub open spec fn normal_uids(existing: Seq<Seq<char>>, n: nat, counter: int) -> (
    Seq<Seq<char>>,
    int,
)
    decreases n,
{
    if n == 0 {
        (Seq::empty(), counter)
    } else {
        let prev = normal_uids(existing, (n - 1) as nat, counter);
        let e = if n - 1 < existing.len() {
            existing[n - 1]
        } else {
            Seq::<char>::empty()
        };
        if e.len() > 0 && !prev.0.contains(e) {
            (prev.0.push(e), prev.1)
        } else {
            let f = first_fresh(prev.0, prev.1);
            (prev.0.push(uid_of(f)), f + 1)
        }
    }
}

/// Distinct counter values have distinct uids.
pub proof fn lemma_uid_injective(a: u64, b: u64)
    requires
        spec_route_component_uid(a) == spec_route_component_uid(b),
    ensures
        a == b,
{
    reveal_strlit("fpc:");
    let s = spec_route_component_uid(a);
    assert(hex16(a) =~= s.subrange(4, s.len() as int));
    assert(hex16(b) =~= s.subrange(4, s.len() as int));
    lemma_hex16_injective(a, b);
}

/// The first fresh counter value is the only one with its defining property.
pub proof fn lemma_first_fresh_unique(seen: Seq<Seq<char>>, from: int, c: int)
    requires
        is_first_fresh(seen, from, c),
    ensures
        first_fresh(seen, from) == c,
{
    let f = first_fresh(seen, from);
    assert(is_first_fresh(seen, from, f));
    if f < c {
        assert(seen.contains(uid_of(f)));
    } else if c < f {
        assert(seen.contains(uid_of(c)));
    }
}

/// When every counter value in `[base, next)` has its uid among `seen`, there
/// are at most as many such values as uids in `seen`.
pub proof fn lemma_used_uids_bounded(seen: Seq<Seq<char>>, base: int, next: int)
    requires
        0 <= base <= next <= u64::MAX + 1,
        forall|c: int| base <= c < next ==> seen.contains(#[trigger] uid_of(c)),
    ensures
        next - base <= seen.len(),
{
    let x = set_int_range(base, next);
    lemma_int_range(base, next);
    let f = |c: int| uid_of(c);
    assert forall|c1: int, c2: int|
        x.contains(c1) && x.contains(c2) && #[trigger] f(c1) == #[trigger] f(c2) implies c1
        == c2 by {
        lemma_uid_injective(c1 as u64, c2 as u64);
    }
    assert(injective_on(f, x));
    let y = x.map(f);
    lemma_map_size(x, y, f);
    assert forall|u: Seq<char>| y.contains(u) implies seen.to_set().contains(u) by {
        let c = choose|c: int| x.contains(c) && f(c) == u;
        assert(seen.contains(uid_of(c)));
    }
    broadcast use vstd::seq_lib::seq_to_set_is_finite;
    lemma_len_subset(y, seen.to_set());
    seen.lemma_cardinality_of_set();
}

/// Whether `s` is one of the texts of `seen`.
pub fn contains_text(seen: &Vec<String>, s: &str) -> (r: bool)
    ensures
        r == string_texts(seen@).contains(s@),
{
    let mut i: usize = 0;
    while i < seen.len()
        invariant
            i <= seen.len(),
            forall|k: int| 0 <= k < i ==> seen@[k]@ != s@,
        decreases seen.len() - i,
    {
        if str_eq(seen[i].as_str(), s) {
            assert(string_texts(seen@)[i as int] == s@);
            return true;
        }
        i = i + 1;
    }
    proof {
        if string_texts(seen@).contains(s@) {
            let k = choose|k: int| 0 <= k < seen.len() && string_texts(seen@)[k] == s@;
            assert(seen@[k]@ == s@);
        }
    }
    false
}

/// Hands out the uid of the first counter value, from `next_counter` on,
/// whose uid is not among `seen`, and moves the counter past it.
fn fresh_route_component_uid(seen: &Vec<String>, next_counter: &mut u64, Ghost(base): Ghost<int>) -> (uid: String)
    requires
        0 <= base <= *old(next_counter),
        base + seen.len() < u64::MAX,
        forall|c: int|
            base <= c < *old(next_counter) ==> string_texts(seen@).contains(#[trigger] uid_of(c)),
    ensures
        is_first_fresh(string_texts(seen@), *old(next_counter) as int, *final(next_counter) - 1),
        uid@ == uid_of(*final(next_counter) - 1),
        forall|c: int|
            base <= c < *final(next_counter) - 1 ==> string_texts(seen@).contains(
                #[trigger] uid_of(c),
            ),
        *old(next_counter) < *final(next_counter),
{
    let ghost start = *next_counter as int;
    let ghost texts = string_texts(seen@);
    proof {
        lemma_used_uids_bounded(texts, base, start);
    }
    loop
        invariant
            texts == string_texts(seen@),
            start == *old(next_counter),
            0 <= base <= start <= *next_counter,
            base + seen.len() < u64::MAX,
            *next_counter - base <= seen.len(),
            forall|c: int| base <= c < *next_counter ==> texts.contains(#[trigger] uid_of(c)),
        decreases base + seen.len() - *next_counter,
    {
        let ghost current = *next_counter as int;
        let candidate = allocate_route_component_uid(next_counter);
        if !contains_text(seen, candidate.as_str()) {
            assert(uid_of(current) == candidate@);
            return candidate;
        }
        proof {
            assert(uid_of(current) == candidate@);
            lemma_used_uids_bounded(texts, base, *next_counter as int);
        }
    }
}

/// The uids of `n` components after normalisation, and the counter after
/// them.
fn normalized_uids(uids: &Vec<String>, n: usize, counter: u64) -> (r: (Vec<String>, u64))
    requires
        counter + n <= u64::MAX,
    ensures
        string_texts(r.0@) == normal_uids(string_texts(uids@), n as nat, counter as int).0,
        r.1 == normal_uids(string_texts(uids@), n as nat, counter as int).1,
{
    let ghost existing = string_texts(uids@);
    let mut seen: Vec<String> = Vec::new();
    let mut next: u64 = counter;
    let mut index: usize = 0;
    while index < n
        invariant
            existing == string_texts(uids@),
            counter + n <= u64::MAX,
            index <= n,
            seen.len() == index,
            string_texts(seen@) == normal_uids(existing, index as nat, counter as int).0,
            next == normal_uids(existing, index as nat, counter as int).1,
            counter <= next,
            forall|c: int|
                counter <= c < next ==> string_texts(seen@).contains(#[trigger] uid_of(c)),
        decreases n - index,
    {
        let ghost prev_texts = string_texts(seen@);
        let ghost prev_next = next as int;
        let keep = index < uids.len() && !str_is_empty(uids[index].as_str()) && !contains_text(
            &seen,
            uids[index].as_str(),
        );
        let uid: String;
        if keep {
            uid = uids[index].clone();
            assert(existing[index as int] == uid@);
        } else {
            proof {
                lemma_used_uids_bounded(prev_texts, counter as int, next as int);
            }
            uid = fresh_route_component_uid(&seen, &mut next, Ghost(counter as int));
            proof {
                lemma_first_fresh_unique(prev_texts, prev_next, next - 1);
            }
        }
        seen.push(uid);
        proof {
            assert(string_texts(seen@) =~= prev_texts.push(uid@));
            assert forall|c: int| counter <= c < next implies string_texts(seen@).contains(
                #[trigger] uid_of(c),
            ) by {
                if c == next - 1 && !keep {
                    assert(string_texts(seen@)[index as int] == uid_of(c));
                } else {
                    let k = choose|k: int| 0 <= k < prev_texts.len() && prev_texts[k] == uid_of(c);
                    assert(string_texts(seen@)[k] == uid_of(c));
                }
            }
        }
        index = index + 1;
    }
    (seen, next)
}

/// The indices `i` below `n - 1` at which components `i` and `i + 1` are
/// both single waypoints, in increasing order.
pub open spec fn waypoint_pairs(cs: Seq<RouteComponent>, n: int) -> Seq<int>
    decreases n,
{
    if n <= 1 {
        Seq::empty()
    } else {
        let prev = waypoint_pairs(cs, n - 1);
        if cs[n - 2] is Waypoint && cs[n - 1] is Waypoint {
            prev.push(n - 2)
        } else {
            prev
        }
    }
}

/// `component-{i}-{i + 1}`.
pub open spec fn waypoint_leg_id(i: int) -> Seq<char> {
    "component-"@ + decimal(i as nat) + "-"@ + decimal((i + 1) as nat)
}

/// `leg` is the direct leg from waypoint component `i` to waypoint
/// component `i + 1`.
pub open spec fn is_waypoint_leg(cs: Seq<RouteComponent>, i: int, leg: ResolvedLeg) -> bool {
    &&& leg.id@ == waypoint_leg_id(i)
    &&& cs[i] matches RouteComponent::Waypoint { waypoint } && leg.from == waypoint
    &&& cs[i + 1] matches RouteComponent::Waypoint { waypoint } && leg.to == waypoint
    &&& leg.source == (ResolvedLegSource::RouteComponent { component_index: i as usize })
    &&& leg.procedure_provenance is None
}

/// `legs` are the direct legs between each two adjacent waypoint components,
/// in route order.
pub open spec fn are_waypoint_legs(cs: Seq<RouteComponent>, legs: Seq<ResolvedLeg>) -> bool {
    let pairs = waypoint_pairs(cs, cs.len() as int);
    &&& legs.len() == pairs.len()
    &&& forall|k: int| 0 <= k < legs.len() ==> is_waypoint_leg(cs, pairs[k], #[trigger] legs[k])
}

/// The direct legs between each two adjacent waypoint components.
pub fn resolved_legs_from_waypoint_components(components: &Vec<RouteComponent>) -> (r: Vec<
    ResolvedLeg,
>)
    ensures
        are_waypoint_legs(components@, r@),
{
    let ghost cs = components@;
    let mut legs: Vec<ResolvedLeg> = Vec::new();
    if components.len() < 2 {
        return legs;
    }
    let mut index: usize = 0;
    while index < components.len() - 1
        invariant
            cs == components@,
            cs.len() >= 2,
            index + 1 <= cs.len(),
            legs.len() == waypoint_pairs(cs, index + 1).len(),
            forall|k: int|
                0 <= k < legs.len() ==> is_waypoint_leg(
                    cs,
                    waypoint_pairs(cs, index + 1)[k],
                    #[trigger] legs@[k],
                ),
            forall|k: int|
                0 <= k < waypoint_pairs(cs, index + 1).len() ==> #[trigger] waypoint_pairs(
                    cs,
                    index + 1,
                )[k] < index,
        decreases cs.len() - index,
    {
        let ghost prev = waypoint_pairs(cs, index + 1);
        match (&components[index], &components[index + 1]) {
            (RouteComponent::Waypoint { waypoint: from }, RouteComponent::Waypoint { waypoint: to }) => {
                let mut id = owned("component-");
                push_decimal(&mut id, index as u64);
                push_str(&mut id, "-");
                push_decimal(&mut id, (index + 1) as u64);
                legs.push(
                    ResolvedLeg {
                        id,
                        from: from.duplicate(),
                        to: to.duplicate(),
                        source: ResolvedLegSource::RouteComponent { component_index: index },
                        procedure_provenance: None,
                    },
                );
                assert(waypoint_pairs(cs, index + 2) == prev.push(index as int));
            },
            _ => {
                assert(waypoint_pairs(cs, index + 2) == prev);
            },
        }
        index = index + 1;
    }
    legs
}

/// Normalisation can hand out every uid it needs from the counter.
pub open spec fn uid_counter_fits(plan: FlightPlan) -> bool {
    plan.route_component_uid_counter + plan.route_components.len() <= u64::MAX
}

/// `after` is `before` normalised, whatever its guidance: every component
/// has a distinct uid as `normal_uids` gives them, and a plan with
/// components but no resolved legs gets the direct legs between adjacent
/// waypoint components. The rest is unchanged.
pub open spec fn normalized_route(before: FlightPlan, after: FlightPlan) -> bool {
    let uids = normal_uids(
        string_texts(before.route_component_uids@),
        before.route_components.len() as nat,
        before.route_component_uid_counter as int,
    );
    &&& after.id == before.id
    &&& after.name == before.name
    &&& after.route_components@ == before.route_components@
    &&& string_texts(after.route_component_uids@) == uids.0
    &&& after.route_component_uid_counter == uids.1
    &&& if before.resolved_legs.len() == 0 && before.route_components.len() > 0 {
        are_waypoint_legs(before.route_components@, after.resolved_legs@)
    } else {
        after.resolved_legs@ == before.resolved_legs@
    }
    &&& after.departure == before.departure
    &&& after.destination == before.destination
    &&& after.alternate == before.alternate
    &&& after.cruise_altitude_ft == before.cruise_altitude_ft
    &&& after.planned_departure_time_epoch_ms == before.planned_departure_time_epoch_ms
    &&& after.notes == before.notes
    &&& after.updated_at_epoch_ms == before.updated_at_epoch_ms
    &&& after.version == before.version
}

/// `after` is `before` normalised, guidance included.
pub open spec fn normalized_from(before: FlightPlan, after: FlightPlan) -> bool {
    normalized_route(before, after) && after.guidance == before.guidance
}

impl FlightPlan {
    /// A plan with nothing in it.
    pub fn empty() -> (r: FlightPlan)
        ensures
            r.id@ == "plan-empty"@,
            r.name@ == "Flight Plan"@,
            r.route_components@.len() == 0,
            r.route_component_uids@.len() == 0,
            r.route_component_uid_counter == 0,
            r.resolved_legs@.len() == 0,
            r.guidance is None,
            r.departure is None,
            r.destination is None,
            r.alternate is None,
            r.cruise_altitude_ft is None,
            r.planned_departure_time_epoch_ms is None,
            r.notes is None,
            r.updated_at_epoch_ms == 0,
            r.version == 1,
    {
        FlightPlan {
            id: owned("plan-empty"),
            name: owned("Flight Plan"),
            route_components: Vec::new(),
            route_component_uids: Vec::new(),
            route_component_uid_counter: 0,
            resolved_legs: Vec::new(),
            guidance: None,
            departure: None,
            destination: None,
            alternate: None,
            cruise_altitude_ft: None,
            planned_departure_time_epoch_ms: None,
            notes: None,
            updated_at_epoch_ms: 0,
            version: 1,
        }
    }

    /// The plan with distinct uids for all its components and, where it has
    /// components but no resolved legs, the direct legs between its adjacent
    /// waypoints.
    pub fn normalized(self) -> (r: FlightPlan)
        requires
            uid_counter_fits(self),
        ensures
            normalized_from(self, r),
    {
        let FlightPlan {
            id,
            name,
            route_components,
            route_component_uids,
            route_component_uid_counter,
            resolved_legs,
            guidance,
            departure,
            destination,
            alternate,
            cruise_altitude_ft,
            planned_departure_time_epoch_ms,
            notes,
            updated_at_epoch_ms,
            version,
        } = self;
        let (uids, counter) = normalized_uids(
            &route_component_uids,
            route_components.len(),
            route_component_uid_counter,
        );
        let legs = if resolved_legs.len() == 0 && route_components.len() > 0 {
            resolved_legs_from_waypoint_components(&route_components)
        } else {
            resolved_legs
        };
        FlightPlan {
            id,
            name,
            route_components,
            route_component_uids: uids,
            route_component_uid_counter: counter,
            resolved_legs: legs,
            guidance,
            departure,
            destination,
            alternate,
            cruise_altitude_ft,
            planned_departure_time_epoch_ms,
            notes,
            updated_at_epoch_ms,
            version,
        }
    }
}

impl Default for FlightPlan {
    /// The plan with nothing in it.
    fn default() -> (r: FlightPlan)
        ensures
            r.id@ == "plan-empty"@,
            r.name@ == "Flight Plan"@,
            r.route_components@.len() == 0,
            r.route_component_uids@.len() == 0,
            r.route_component_uid_counter == 0,
            r.resolved_legs@.len() == 0,
            r.guidance is None,
            r.departure is None,
            r.destination is None,
            r.alternate is None,
            r.cruise_altitude_ft is None,
            r.planned_departure_time_epoch_ms is None,
            r.notes is None,
            r.updated_at_epoch_ms == 0,
            r.version == 1,
    {
        FlightPlan::empty()
    }
}

/// The plan's counter and guidance details stay within machine limits.
pub open spec fn plan_within_limits(plan: FlightPlan) -> bool {
    uid_counter_fits(plan) && details_fit(plan)
}

/// Legs that draw nothing have one guidance detail each.
pub proof fn lemma_undrawn_legs_details(legs: Seq<ResolvedLeg>, k: int)
    requires
        0 <= k <= legs.len(),
        forall|i: int| 0 <= i < legs.len() ==> (#[trigger] legs[i]).procedure_provenance is None,
    ensures
        details_before(legs, k) == k,
    decreases k,
{
    if k > 0 {
        lemma_undrawn_legs_details(legs, k - 1);
    }
}

/// Normalising keeps the guidance details within machine limits.
pub proof fn lemma_normalized_fits(before: FlightPlan, after: FlightPlan)
    requires
        normalized_route(before, after),
        details_fit(before),
    ensures
        details_fit(after),
{
    if before.resolved_legs.len() == 0 && before.route_components.len() > 0 {
        let legs = after.resolved_legs@;
        assert forall|i: int| 0 <= i < legs.len() implies (#[trigger] legs[i]).procedure_provenance
            is None by {
            assert(is_waypoint_leg(
                before.route_components@,
                waypoint_pairs(before.route_components@, before.route_components.len() as int)[i],
                legs[i],
            ));
        }
        lemma_undrawn_legs_details(legs, legs.len() as int);
        assert(legs.len() == after.resolved_legs.len());
    }
}

/// Component `c` names `nav_ref`: as its waypoint, as its airway's entry or
/// exit, or as its procedure's airport.
pub open spec fn component_names(c: RouteComponent, nav_ref: NavRef) -> bool {
    match c {
        RouteComponent::Waypoint { waypoint } => same_nav_ref(waypoint, nav_ref),
        RouteComponent::Airway { airway } => same_nav_ref(airway.entry, nav_ref) || same_nav_ref(
            airway.exit,
            nav_ref,
        ),
        RouteComponent::Procedure { procedure } => match nav_ref {
            NavRef::Airport(id) => id@ == procedure.airport_id.0@,
            _ => false,
        },
    }
}

/// Whether some component of the route names `nav_ref`.
pub fn flight_plan_contains_nav_ref(plan: &FlightPlan, nav_ref: &NavRef) -> (r: bool)
    ensures
        r == exists|i: int|
            0 <= i < plan.route_components.len() && #[trigger] component_names(
                plan.route_components@[i],
                *nav_ref,
            ),
{
    let mut i: usize = 0;
    while i < plan.route_components.len()
        invariant
            i <= plan.route_components.len(),
            forall|k: int| 0 <= k < i ==> !component_names(plan.route_components@[k], *nav_ref),
        decreases plan.route_components.len() - i,
    {
        let names = match &plan.route_components[i] {
            RouteComponent::Waypoint { waypoint } => nav_ref_eq(waypoint, nav_ref),
            RouteComponent::Airway { airway } => nav_ref_eq(&airway.entry, nav_ref) || nav_ref_eq(
                &airway.exit,
                nav_ref,
            ),
            RouteComponent::Procedure { procedure } => match nav_ref {
                NavRef::Airport(id) => str_eq(id.as_str(), procedure.airport_id.0.as_str()),
                _ => false,
            },
        };
        if names {
            assert(component_names(plan.route_components@[i as int], *nav_ref));
            return true;
        }
        i = i + 1;
    }
    false
}

/// Whether guidance shows an off-plan Direct-To.
pub fn flight_plan_has_direct_to_overlay(plan: &FlightPlan) -> (r: bool)
    ensures
        r == crate::guidance::spec_has_direct_to_overlay(plan.guidance),
{
    crate::guidance::guidance_has_direct_to_overlay(&plan.guidance)
}

/// Component `c` is the single waypoint `nav_ref`.
pub open spec fn is_waypoint_at(c: RouteComponent, nav_ref: NavRef) -> bool {
    match c {
        RouteComponent::Waypoint { waypoint } => same_nav_ref(waypoint, nav_ref),
        _ => false,
    }
}

/// The number of components among the first `n` that are the single
/// waypoint `nav_ref`.
pub open spec fn waypoint_count(cs: Seq<RouteComponent>, nav_ref: NavRef, n: int) -> nat
    decreases n,
{
    if n <= 0 {
        0
    } else {
        waypoint_count(cs, nav_ref, n - 1) + if is_waypoint_at(cs[n - 1], nav_ref) {
            1nat
        } else {
            0nat
        }
    }
}

/// The first component that is the single waypoint `nav_ref`.
pub fn top_level_waypoint_component_index(plan: &FlightPlan, nav_ref: &NavRef) -> (r: Option<
    usize,
>)
    ensures
        match r {
            Some(i) => i < plan.route_components.len() && is_waypoint_at(
                plan.route_components@[i as int],
                *nav_ref,
            ) && forall|k: int|
                0 <= k < i ==> !is_waypoint_at(plan.route_components@[k], *nav_ref),
            None => forall|k: int|
                0 <= k < plan.route_components.len() ==> !is_waypoint_at(
                    plan.route_components@[k],
                    *nav_ref,
                ),
        },
{
    let mut i: usize = 0;
    while i < plan.route_components.len()
        invariant
            i <= plan.route_components.len(),
            forall|k: int| 0 <= k < i ==> !is_waypoint_at(plan.route_components@[k], *nav_ref),
        decreases plan.route_components.len() - i,
    {
        let found = match &plan.route_components[i] {
            RouteComponent::Waypoint { waypoint } => nav_ref_eq(waypoint, nav_ref),
            _ => false,
        };
        if found {
            return Some(i);
        }
        i = i + 1;
    }
    None
}

/// The number of components that are the single waypoint `nav_ref`.
pub fn top_level_waypoint_component_count(plan: &FlightPlan, nav_ref: &NavRef) -> (r: usize)
    ensures
        r == waypoint_count(plan.route_components@, *nav_ref, plan.route_components.len() as int),
{
    let mut count: usize = 0;
    let mut i: usize = 0;
    while i < plan.route_components.len()
        invariant
            i <= plan.route_components.len(),
            count == waypoint_count(plan.route_components@, *nav_ref, i as int),
            count <= i,
        decreases plan.route_components.len() - i,
    {
        let found = match &plan.route_components[i] {
            RouteComponent::Waypoint { waypoint } => nav_ref_eq(waypoint, nav_ref),
            _ => false,
        };
        if found {
            count = count + 1;
        }
        i = i + 1;
    }
    count
}

/// From a counter value whose uid is not among `seen`, the first such value
/// from `from` on exists.
proof fn lemma_first_fresh_exists(seen: Seq<Seq<char>>, from: int, witness: int)
    requires
        from <= witness,
        !seen.contains(uid_of(witness)),
    ensures
        is_first_fresh(seen, from, first_fresh(seen, from)),
        first_fresh(seen, from) <= witness,
    decreases witness - from,
{
    if !seen.contains(uid_of(from)) {
        assert(is_first_fresh(seen, from, from));
        lemma_first_fresh_unique(seen, from, from);
    } else {
        lemma_first_fresh_exists(seen, from + 1, witness);
        let f = first_fresh(seen, from + 1);
        assert(is_first_fresh(seen, from, f));
        lemma_first_fresh_unique(seen, from, f);
    }
}

/// The uids that normalisation gives are non-empty and distinct, and every
/// counter value it passed has its uid among them.
pub proof fn lemma_normal_uids_distinct(existing: Seq<Seq<char>>, n: nat, counter: int)
    requires
        0 <= counter,
        counter + n <= u64::MAX + 1,
    ensures
        normal_uids(existing, n, counter).0.len() == n,
        counter <= normal_uids(existing, n, counter).1 <= counter + n,
        forall|i: int|
            0 <= i < n ==> (#[trigger] normal_uids(existing, n, counter).0[i]).len() > 0,
        forall|i: int, j: int|
            0 <= i < j < n ==> #[trigger] normal_uids(existing, n, counter).0[i]
                != #[trigger] normal_uids(existing, n, counter).0[j],
        forall|k: int|
            counter <= k < normal_uids(existing, n, counter).1 ==> normal_uids(
                existing,
                n,
                counter,
            ).0.contains(#[trigger] uid_of(k)),
    decreases n,
{
    reveal_strlit("fpc:");
    if n > 0 {
        lemma_normal_uids_distinct(existing, (n - 1) as nat, counter);
        let prev = normal_uids(existing, (n - 1) as nat, counter);
        let e = if n - 1 < existing.len() {
            existing[n - 1]
        } else {
            Seq::<char>::empty()
        };
        let now = normal_uids(existing, n, counter);
        if e.len() > 0 && !prev.0.contains(e) {
            assert(now.0 == prev.0.push(e));
            assert forall|k: int| counter <= k < now.1 implies now.0.contains(#[trigger] uid_of(k)) by {
                let i = choose|i: int| 0 <= i < prev.0.len() && prev.0[i] == uid_of(k);
                assert(now.0[i] == uid_of(k));
            }
        } else {
            if forall|k: int| counter <= k < counter + n ==> prev.0.contains(#[trigger] uid_of(k)) {
                lemma_used_uids_bounded(prev.0, counter, counter + n);
                assert(false);
            }
            let k0 = choose|k: int| counter <= k < counter + n && !prev.0.contains(#[trigger] uid_of(k));
            if k0 < prev.1 {
                assert(prev.0.contains(uid_of(k0)));
            }
            lemma_first_fresh_exists(prev.0, prev.1, k0);
            let f = first_fresh(prev.0, prev.1);
            assert(now.0 == prev.0.push(uid_of(f)));
            assert(uid_of(f).len() == 20) by {
                crate::text::lemma_padded_digits_len(f as u64 as nat, 16, 16);
            }
            assert forall|k: int| counter <= k < now.1 implies now.0.contains(#[trigger] uid_of(k)) by {
                if k == f {
                    assert(now.0[n - 1] == uid_of(k));
                } else {
                    if k >= prev.1 {
                        assert(prev.0.contains(uid_of(k)));
                    }
                    let i = choose|i: int| 0 <= i < prev.0.len() && prev.0[i] == uid_of(k);
                    assert(now.0[i] == uid_of(k));
                }
            }
        }
    }
}

/// Distinct non-empty uids are a fixed point of normalisation.
pub proof fn lemma_normal_uids_fixed(u: Seq<Seq<char>>, counter: int, k: nat)
    requires
        k <= u.len(),
        forall|i: int| 0 <= i < u.len() ==> (#[trigger] u[i]).len() > 0,
        forall|i: int, j: int| 0 <= i < j < u.len() ==> #[trigger] u[i] != #[trigger] u[j],
    ensures
        normal_uids(u, k, counter) == (u.take(k as int), counter),
    decreases k,
{
    if k > 0 {
        lemma_normal_uids_fixed(u, counter, (k - 1) as nat);
        let before = u.take(k - 1);
        if before.contains(u[k - 1]) {
            let i = choose|i: int| 0 <= i < before.len() && before[i] == u[k - 1];
            assert(u[i] == u[k - 1]);
        }
        assert(before.push(u[k - 1]) =~= u.take(k as int));
    }
}

/// Normalising a normalised plan changes nothing: the uids, the counter and
/// the resolved legs stay as they are.
pub proof fn law_normalizing_twice_changes_nothing(a: FlightPlan, b: FlightPlan, c: FlightPlan)
    requires
        uid_counter_fits(a),
        normalized_route(a, b),
        normalized_route(b, c),
    ensures
        string_texts(c.route_component_uids@) == string_texts(b.route_component_uids@),
        c.route_component_uid_counter == b.route_component_uid_counter,
        c.resolved_legs@ == b.resolved_legs@,
        c.route_components@ == b.route_components@,
{
    let n = a.route_components.len() as nat;
    let ua = string_texts(a.route_component_uids@);
    lemma_normal_uids_distinct(ua, n, a.route_component_uid_counter as int);
    let u = normal_uids(ua, n, a.route_component_uid_counter as int).0;
    lemma_normal_uids_fixed(u, b.route_component_uid_counter as int, n);
    assert(u.take(n as int) =~= u);
    if b.resolved_legs.len() == 0 && b.route_components.len() > 0 {
        assert(a.resolved_legs.len() == 0);
        assert(waypoint_pairs(a.route_components@, a.route_components.len() as int).len() == 0);
        assert(c.resolved_legs@ =~= b.resolved_legs@);
    }
}


/// A normalised plan is its own normalisation: normalising it again gives
/// the same components, uids, counter, legs and the rest.
pub proof fn law_normalizing_a_normal_plan_changes_nothing(p: FlightPlan, n: FlightPlan)
    requires
        uid_counter_fits(p),
        normalized_from(p, n),
    ensures
        normalized_from(n, n),
{
    let k = p.route_components.len() as nat;
    let up = string_texts(p.route_component_uids@);
    lemma_normal_uids_distinct(up, k, p.route_component_uid_counter as int);
    let u = normal_uids(up, k, p.route_component_uid_counter as int).0;
    lemma_normal_uids_fixed(u, n.route_component_uid_counter as int, k);
    assert(u.take(k as int) =~= u);
}


/// Normalising gives each component a uid of its own: one per component,
/// none empty, no two the same; the counter only grows.
pub proof fn law_normalized_uids_are_distinct(p: FlightPlan, n: FlightPlan)
    requires
        uid_counter_fits(p),
        normalized_from(p, n),
    ensures
        n.route_component_uids.len() == n.route_components.len(),
        forall|i: int|
            0 <= i < n.route_component_uids.len() ==> (#[trigger] n.route_component_uids@[i])@.len() > 0,
        forall|i: int, j: int|
            0 <= i < j < n.route_component_uids.len() ==> (#[trigger] n.route_component_uids@[i])@
                != (#[trigger] n.route_component_uids@[j])@,
        n.route_component_uid_counter >= p.route_component_uid_counter,
{
    let t = string_texts(n.route_component_uids@);
    lemma_normal_uids_distinct(
        string_texts(p.route_component_uids@),
        p.route_components.len() as nat,
        p.route_component_uid_counter as int,
    );
    assert(t.len() == n.route_component_uids@.len());
    assert forall|i: int| 0 <= i < n.route_component_uids.len() implies (
    #[trigger] n.route_component_uids@[i])@.len() > 0 by {
        assert(t[i] == n.route_component_uids@[i]@);
    }
    assert forall|i: int, j: int| 0 <= i < j < n.route_component_uids.len() implies (
    #[trigger] n.route_component_uids@[i])@ != (#[trigger] n.route_component_uids@[j])@ by {
        assert(t[i] == n.route_component_uids@[i]@);
        assert(t[j] == n.route_component_uids@[j]@);
    }
}

} // verus!
