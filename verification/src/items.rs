//! What each route component lists in the flight plan: its waypoints and
//! the breaks in its path, with a waypoint shared by two neighbouring
//! components listed once.
use crate::flight_plan::ResolvedLeg;
use crate::nav::{nav_ref_eq, same_nav_ref, NavRef};
use crate::rebuild::grouped_at;
use crate::route::{
    spec_discontinuity_label, ConcretizedNavItem, ProcedureDiscontinuity, RouteComponent,
};
use crate::text::owned;
use vstd::prelude::*;

verus! {

/// A listed item as the pilot reads it: a waypoint, or a break in the path
/// with its label.
pub enum NavItemView {
    Waypoint(NavRef),
    Discontinuity(ProcedureDiscontinuity, Seq<char>),
}

impl View for ConcretizedNavItem {
    type V = NavItemView;

    open spec fn view(&self) -> NavItemView {
        match *self {
            ConcretizedNavItem::Waypoint { nav_ref } => NavItemView::Waypoint(nav_ref),
            ConcretizedNavItem::Discontinuity { discontinuity, label } => NavItemView::Discontinuity(
                discontinuity,
                label@,
            ),
        }
    }
}

/// The views of a list of items.
pub open spec fn item_views(items: Seq<ConcretizedNavItem>) -> Seq<NavItemView> {
    items.map_values(|i: ConcretizedNavItem| i@)
}

/// The item of a break in the path, labelled as the flight plan shows it.
pub open spec fn break_item(d: ProcedureDiscontinuity) -> NavItemView {
    NavItemView::Discontinuity(d, spec_discontinuity_label(d))
}

impl ConcretizedNavItem {
    /// A copy of this item.
    pub fn duplicate(&self) -> (r: ConcretizedNavItem)
        ensures
            r == *self,
    {
        match self {
            ConcretizedNavItem::Waypoint { nav_ref } => ConcretizedNavItem::Waypoint {
                nav_ref: nav_ref.duplicate(),
            },
            ConcretizedNavItem::Discontinuity { discontinuity, label } => {
                ConcretizedNavItem::Discontinuity {
                    discontinuity: discontinuity.duplicate(),
                    label: label.clone(),
                }
            },
        }
    }
}

/// The item of a break in the path.
fn discontinuity_item(d: &ProcedureDiscontinuity) -> (r: ConcretizedNavItem)
    ensures
        r@ == break_item(*d),
{
    ConcretizedNavItem::Discontinuity { label: owned(d.display_label()), discontinuity: d.duplicate() }
}

/// The items with waypoint `n` added, unless the last item is that waypoint.
pub open spec fn pushed_waypoint(items: Seq<NavItemView>, n: NavRef) -> Seq<NavItemView> {
    if items.len() > 0 && match items.last() {
        NavItemView::Waypoint(e) => same_nav_ref(e, n),
        _ => false,
    } {
        items
    } else {
        items.push(NavItemView::Waypoint(n))
    }
}

/// An airway's items after its entry and the ends of its first `n` kept
/// legs.
pub open spec fn airway_items_upto(entry: NavRef, legs: Seq<ResolvedLeg>, n: int) -> Seq<
    NavItemView,
>
    decreases n,
{
    if n <= 0 {
        seq![NavItemView::Waypoint(entry)]
    } else {
        pushed_waypoint(airway_items_upto(entry, legs, n - 1), legs[n - 1].to)
    }
}

/// The break that a leg's procedure puts after it.
pub open spec fn break_after(leg: ResolvedLeg) -> Option<ProcedureDiscontinuity> {
    match leg.procedure_provenance {
        Some(p) => p.discontinuity_after,
        None => None,
    }
}

/// A procedure's items for its first `n` kept legs: the first leg's start,
/// then each leg's end, each followed by the break after it, if any; and
/// whether the last of them ended in a break.
pub open spec fn procedure_items_upto(legs: Seq<ResolvedLeg>, n: int) -> (Seq<NavItemView>, bool)
    decreases n,
{
    if n <= 0 {
        (seq![NavItemView::Waypoint(legs[0].from)], false)
    } else {
        let before = procedure_items_upto(legs, n - 1);
        let with_end = before.0.push(NavItemView::Waypoint(legs[n - 1].to));
        match break_after(legs[n - 1]) {
            Some(d) => (with_end.push(break_item(d)), true),
            None => (with_end, false),
        }
    }
}

/// What a component lists, from its kept legs: a waypoint itself; an
/// airway its entry, the ends of its legs (its exit when it keeps none),
/// each waypoint once where it repeats; a procedure the waypoints and
/// breaks of its legs, then its own final break unless a leg's break ended
/// the list.
pub open spec fn spec_raw_items(c: RouteComponent, legs: Seq<ResolvedLeg>) -> Seq<NavItemView> {
    match c {
        RouteComponent::Waypoint { waypoint } => seq![NavItemView::Waypoint(waypoint)],
        RouteComponent::Airway { airway } => if legs.len() == 0 {
            pushed_waypoint(seq![NavItemView::Waypoint(airway.entry)], airway.exit)
        } else {
            airway_items_upto(airway.entry, legs, legs.len() as int)
        },
        RouteComponent::Procedure { procedure } => {
            let listed = if legs.len() > 0 {
                procedure_items_upto(legs, legs.len() as int)
            } else {
                (Seq::empty(), false)
            };
            match procedure.terminal_discontinuity {
                Some(d) => if listed.1 {
                    listed.0
                } else {
                    listed.0.push(break_item(d))
                },
                None => listed.0,
            }
        },
    }
}

/// Adds waypoint `n` unless the last item is that waypoint.
fn push_waypoint(items: &mut Vec<ConcretizedNavItem>, n: &NavRef)
    ensures
        item_views(final(items)@) == pushed_waypoint(item_views(old(items)@), *n),
{
    let ghost before = items@;
    let repeated = items.len() > 0 && match &items[items.len() - 1] {
        ConcretizedNavItem::Waypoint { nav_ref } => nav_ref_eq(nav_ref, n),
        _ => false,
    };
    if !repeated {
        items.push(ConcretizedNavItem::Waypoint { nav_ref: n.duplicate() });
        assert(item_views(items@) =~= item_views(before).push(NavItemView::Waypoint(*n)));
    } else {
        assert(item_views(before).last() == before.last()@);
    }
}

/// What a component lists, from its kept legs.
pub fn raw_component_ui_items(component: &RouteComponent, grouped_legs: Vec<ResolvedLeg>) -> (r:
    Vec<ConcretizedNavItem>)
    ensures
        item_views(r@) == spec_raw_items(*component, grouped_legs@),
{
    let ghost legs = grouped_legs@;
    match component {
        RouteComponent::Waypoint { waypoint } => {
            let mut items = Vec::new();
            items.push(ConcretizedNavItem::Waypoint { nav_ref: waypoint.duplicate() });
            assert(item_views(items@) =~= seq![NavItemView::Waypoint(*waypoint)]);
            items
        },
        RouteComponent::Airway { airway } => {
            let mut items: Vec<ConcretizedNavItem> = Vec::new();
            items.push(ConcretizedNavItem::Waypoint { nav_ref: airway.entry.duplicate() });
            assert(item_views(items@) =~= seq![NavItemView::Waypoint(airway.entry)]);
            if grouped_legs.len() == 0 {
                push_waypoint(&mut items, &airway.exit);
            } else {
                let mut i: usize = 0;
                while i < grouped_legs.len()
                    invariant
                        legs == grouped_legs@,
                        i <= legs.len(),
                        item_views(items@) == airway_items_upto(airway.entry, legs, i as int),
                    decreases legs.len() - i,
                {
                    push_waypoint(&mut items, &grouped_legs[i].to);
                    i = i + 1;
                }
            }
            items
        },
        RouteComponent::Procedure { procedure } => {
            let mut items: Vec<ConcretizedNavItem> = Vec::new();
            let mut last_leg_had_discontinuity = false;
            if grouped_legs.len() > 0 {
                items.push(ConcretizedNavItem::Waypoint { nav_ref: grouped_legs[0].from.duplicate() });
                assert(item_views(items@) =~= seq![NavItemView::Waypoint(legs[0].from)]);
                let mut i: usize = 0;
                while i < grouped_legs.len()
                    invariant
                        legs == grouped_legs@,
                        legs.len() > 0,
                        i <= legs.len(),
                        (item_views(items@), last_leg_had_discontinuity) == procedure_items_upto(
                            legs,
                            i as int,
                        ),
                    decreases legs.len() - i,
                {
                    let leg = &grouped_legs[i];
                    let ghost before = item_views(items@);
                    items.push(ConcretizedNavItem::Waypoint { nav_ref: leg.to.duplicate() });
                    assert(item_views(items@) =~= before.push(NavItemView::Waypoint(leg.to)));
                    last_leg_had_discontinuity = false;
                    match &leg.procedure_provenance {
                        Some(p) => match &p.discontinuity_after {
                            Some(d) => {
                                let ghost with_end = item_views(items@);
                                items.push(discontinuity_item(d));
                                assert(item_views(items@) =~= with_end.push(break_item(*d)));
                                last_leg_had_discontinuity = true;
                            },
                            None => {},
                        },
                        None => {},
                    }
                    i = i + 1;
                }
            } else {
                assert(item_views(items@) =~= Seq::empty());
            }
            if !last_leg_had_discontinuity {
                match &procedure.terminal_discontinuity {
                    Some(d) => {
                        let ghost listed = item_views(items@);
                        items.push(discontinuity_item(d));
                        assert(item_views(items@) =~= listed.push(break_item(*d)));
                    },
                    None => {},
                }
            }
            items
        },
    }
}

/// The place of the last waypoint among the first `n` items.
pub open spec fn last_waypoint_before(items: Seq<NavItemView>, n: int) -> Option<int>
    decreases n,
{
    if n <= 0 {
        None
    } else if items[n - 1] is Waypoint {
        Some(n - 1)
    } else {
        last_waypoint_before(items, n - 1)
    }
}

/// The place of the first waypoint among the items from `i` on.
pub open spec fn first_waypoint_from(items: Seq<NavItemView>, i: int) -> Option<int>
    decreases items.len() - i,
{
    if i < 0 || i >= items.len() {
        None
    } else if items[i] is Waypoint {
        Some(i)
    } else {
        first_waypoint_from(items, i + 1)
    }
}

/// Components `b` and `b + 1` list the same waypoint where they meet: the
/// last waypoint of the one and the first of the other. It is listed once:
/// by the waypoint component when a waypoint meets a group, else by the
/// later component.
pub open spec fn dedupe_boundary(
    cs: Seq<RouteComponent>,
    per: Seq<Seq<NavItemView>>,
    b: int,
) -> Seq<Seq<NavItemView>> {
    let left = per[b];
    let right = per[b + 1];
    match (last_waypoint_before(left, left.len() as int), first_waypoint_from(right, 0)) {
        (Some(l), Some(r)) => match (left[l], right[r]) {
            (NavItemView::Waypoint(ln), NavItemView::Waypoint(rn)) => if same_nav_ref(ln, rn) {
                if cs[b] is Waypoint && !(cs[b + 1] is Waypoint) {
                    per.update(b + 1, right.remove(r))
                } else {
                    per.update(b, left.remove(l))
                }
            } else {
                per
            },
            _ => per,
        },
        _ => per,
    }
}

/// The lists after the first `b` boundaries are handled, in order.
pub open spec fn deduped_upto(
    cs: Seq<RouteComponent>,
    raw: Seq<Seq<NavItemView>>,
    b: int,
) -> Seq<Seq<NavItemView>>
    decreases b,
{
    if b <= 0 {
        raw
    } else {
        dedupe_boundary(cs, deduped_upto(cs, raw, b - 1), b - 1)
    }
}

/// What each component lists from its kept legs.
pub open spec fn raw_items_of(
    cs: Seq<RouteComponent>,
    grouped: Seq<Option<Vec<ResolvedLeg>>>,
) -> Seq<Seq<NavItemView>> {
    Seq::new(cs.len(), |i: int| spec_raw_items(cs[i], grouped_at(grouped, i)))
}

/// What each component lists in the flight plan.
pub open spec fn spec_projected_items(
    cs: Seq<RouteComponent>,
    grouped: Seq<Option<Vec<ResolvedLeg>>>,
) -> Seq<Seq<NavItemView>> {
    if cs.len() == 0 {
        Seq::empty()
    } else {
        deduped_upto(cs, raw_items_of(cs, grouped), cs.len() - 1)
    }
}

/// The views of each list.
pub open spec fn lists_view(per: Seq<Vec<ConcretizedNavItem>>) -> Seq<Seq<NavItemView>> {
    per.map_values(|v: Vec<ConcretizedNavItem>| item_views(v@))
}

/// The list without item `k`.
fn without_item(items: &Vec<ConcretizedNavItem>, k: usize) -> (r: Vec<ConcretizedNavItem>)
    requires
        k < items.len(),
    ensures
        item_views(r@) == item_views(items@).remove(k as int),
{
    let mut r: Vec<ConcretizedNavItem> = Vec::new();
    let mut i: usize = 0;
    while i < items.len()
        invariant
            k < items.len(),
            i <= items.len(),
            item_views(r@) == if i <= k {
                item_views(items@).take(i as int)
            } else {
                item_views(items@).take(i as int).remove(k as int)
            },
        decreases items.len() - i,
    {
        let ghost before = item_views(r@);
        if i != k {
            r.push(items[i].duplicate());
            assert(item_views(r@) =~= before.push(items@[i as int]@));
        }
        proof {
            let t = item_views(items@);
            if i < k {
                assert(t.take(i + 1) =~= t.take(i as int).push(t[i as int]));
            } else if i == k {
                assert(t.take(i + 1).remove(k as int) =~= t.take(i as int));
            } else {
                assert(t.take(i + 1).remove(k as int) =~= t.take(i as int).remove(k as int).push(
                    t[i as int],
                ));
            }
        }
        i = i + 1;
    }
    assert(item_views(items@).take(items.len() as int) =~= item_views(items@));
    r
}

/// The place of the last waypoint in a list.
fn last_waypoint_index(items: &Vec<ConcretizedNavItem>) -> (r: Option<usize>)
    ensures
        r == match last_waypoint_before(item_views(items@), items.len() as int) {
            Some(i) => Some(i as usize),
            None => None,
        },
        last_waypoint_before(item_views(items@), items.len() as int) matches Some(i) ==> 0 <= i
            < items.len(),
{
    let ghost v = item_views(items@);
    let mut n: usize = items.len();
    proof {
        lemma_last_waypoint_range(v, n as int);
    }
    while n > 0
        invariant
            v == item_views(items@),
            n <= items.len(),
            last_waypoint_before(v, items.len() as int) == last_waypoint_before(v, n as int),
        decreases n,
    {
        match &items[n - 1] {
            ConcretizedNavItem::Waypoint { .. } => return Some(n - 1),
            ConcretizedNavItem::Discontinuity { .. } => {},
        }
        n = n - 1;
    }
    None
}

proof fn lemma_last_waypoint_range(items: Seq<NavItemView>, n: int)
    ensures
        last_waypoint_before(items, n) matches Some(i) ==> 0 <= i < n && items[i] is Waypoint,
    decreases n,
{
    if n > 0 {
        lemma_last_waypoint_range(items, n - 1);
    }
}

proof fn lemma_first_waypoint_range(items: Seq<NavItemView>, i: int)
    ensures
        first_waypoint_from(items, i) matches Some(k) ==> 0 <= i <= k < items.len()
            && items[k] is Waypoint,
    decreases items.len() - i,
{
    if 0 <= i < items.len() {
        lemma_first_waypoint_range(items, i + 1);
    }
}

/// The place of the first waypoint in a list.
fn first_waypoint_index(items: &Vec<ConcretizedNavItem>) -> (r: Option<usize>)
    ensures
        r == match first_waypoint_from(item_views(items@), 0) {
            Some(i) => Some(i as usize),
            None => None,
        },
        first_waypoint_from(item_views(items@), 0) matches Some(i) ==> 0 <= i < items.len(),
{
    let ghost v = item_views(items@);
    proof {
        lemma_first_waypoint_range(v, 0);
    }
    let mut i: usize = 0;
    while i < items.len()
        invariant
            v == item_views(items@),
            i <= items.len(),
            first_waypoint_from(v, 0) == first_waypoint_from(v, i as int),
        decreases items.len() - i,
    {
        match &items[i] {
            ConcretizedNavItem::Waypoint { .. } => return Some(i),
            ConcretizedNavItem::Discontinuity { .. } => {},
        }
        i = i + 1;
    }
    None
}

/// A copy of a list of legs.
fn duplicate_legs(legs: &Vec<ResolvedLeg>) -> (r: Vec<ResolvedLeg>)
    ensures
        r@ == legs@,
{
    let mut r: Vec<ResolvedLeg> = Vec::new();
    let mut i: usize = 0;
    while i < legs.len()
        invariant
            i <= legs.len(),
            r@ == legs@.take(i as int),
        decreases legs.len() - i,
    {
        r.push(legs[i].duplicate());
        assert(r@ =~= legs@.take(i + 1));
        i = i + 1;
    }
    assert(legs@.take(legs.len() as int) =~= legs@);
    r
}

/// What each component lists in the flight plan, from the legs each keeps.
pub fn dedupe_component_items_for_projection(
    components: &Vec<RouteComponent>,
    grouped_component_legs: &Vec<Option<Vec<ResolvedLeg>>>,
) -> (r: Vec<Vec<ConcretizedNavItem>>)
    ensures
        lists_view(r@) == spec_projected_items(components@, grouped_component_legs@),
{
    let ghost cs = components@;
    let ghost grouped = grouped_component_legs@;
    let ghost raw = raw_items_of(cs, grouped);
    let mut per: Vec<Vec<ConcretizedNavItem>> = Vec::new();
    let mut c: usize = 0;
    while c < components.len()
        invariant
            cs == components@,
            grouped == grouped_component_legs@,
            raw == raw_items_of(cs, grouped),
            c <= cs.len(),
            per.len() == c,
            forall|k: int| 0 <= k < c ==> #[trigger] lists_view(per@)[k] == raw[k],
        decreases cs.len() - c,
    {
        let legs = if c < grouped_component_legs.len() {
            match &grouped_component_legs[c] {
                Some(v) => duplicate_legs(v),
                None => Vec::new(),
            }
        } else {
            Vec::new()
        };
        assert(legs@ == grouped_at(grouped, c as int));
        let items = raw_component_ui_items(&components[c], legs);
        assert(item_views(items@) == raw[c as int]);
        let ghost before = per@;
        per.push(items);
        assert forall|k: int| 0 <= k < c + 1 implies #[trigger] lists_view(per@)[k] == raw[k] by {
            assert(lists_view(per@)[k] == item_views(per@[k]@));
            if k < c {
                assert(per@[k] == before[k]);
                assert(lists_view(before)[k] == item_views(before[k]@));
            }
        }
        c = c + 1;
    }
    assert(lists_view(per@) =~= raw);
    if components.len() == 0 {
        return per;
    }
    let mut b: usize = 0;
    while b < components.len() - 1
        invariant
            cs == components@,
            raw == raw_items_of(cs, grouped),
            cs.len() > 0,
            b <= cs.len() - 1,
            per.len() == cs.len(),
            lists_view(per@) == deduped_upto(cs, raw, b as int),
        decreases cs.len() - 1 - b,
    {
        let ghost state = lists_view(per@);
        assert(state[b as int] == item_views(per@[b as int]@));
        assert(state[b + 1] == item_views(per@[b + 1]@));
        let left = last_waypoint_index(&per[b]);
        let right = first_waypoint_index(&per[b + 1]);
        match (left, right) {
            (Some(l), Some(r)) => {
                let same = match (&per[b][l], &per[b + 1][r]) {
                    (
                        ConcretizedNavItem::Waypoint { nav_ref: ln },
                        ConcretizedNavItem::Waypoint { nav_ref: rn },
                    ) => nav_ref_eq(ln, rn),
                    _ => false,
                };
                assert(item_views(per@[b as int]@)[l as int] == per@[b as int]@[l as int]@);
                assert(item_views(per@[b + 1]@)[r as int] == per@[b + 1]@[r as int]@);
                if same {
                    let hide_right = components[b].is_waypoint() && !components[b + 1].is_waypoint();
                    if hide_right {
                        let trimmed = without_item(&per[b + 1], r);
                        per.set(b + 1, trimmed);
                        assert(lists_view(per@) =~= state.update(b + 1, state[b + 1].remove(r as int)));
                    } else {
                        let trimmed = without_item(&per[b], l);
                        per.set(b, trimmed);
                        assert(lists_view(per@) =~= state.update(b as int, state[b as int].remove(l as int)));
                    }
                }
            },
            _ => {},
        }
        b = b + 1;
    }
    per
}

} // verus!
