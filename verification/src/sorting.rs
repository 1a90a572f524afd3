//! The order of a compiled clip's events: by tick, and at one tick
//! note-ons before controller and program changes before note-offs; events
//! that tie keep their order. Group indices follow their events to their
//! sorted places and are then listed in ascending order.
//!
//! The sorted place of event `i` is the number of events that come before
//! it: those with a smaller key and the earlier ones with the same key.

use vstd::prelude::*;
use vstd::relations::{injective_on, sorted_by, total_ordering};
use vstd::set_lib::{lemma_int_range, lemma_map_size, lemma_subset_equality, set_int_range};

use crate::compiler::{DrumProbabilityGroup, MidiEvent, RandomChoiceGroup};
use crate::drum::{view_drum_groups, DrumGroupView};
use crate::emit::{candidates_of, view_event, view_events, view_groups, EventView};
use crate::error::EngineError;
use crate::midi::MidiMessage;
use crate::text::owned;

verus! {

/// Rank of a message among the events of one tick: note-on 0, controller
/// and program change 1, note-off 2; System Real-Time messages, which
/// compiled clips never hold, 3.
pub open spec fn sort_priority(m: MidiMessage) -> u8 {
    match m {
        MidiMessage::NoteOn { .. } => 0,
        MidiMessage::ControlChange { .. } => 1,
        MidiMessage::NoteOff { .. } => 2,
        MidiMessage::ProgramChange { .. } => 1,
        _ => 3,
    }
}

/// Rank of a message among the events of one tick.
pub fn event_sort_priority(msg: &MidiMessage) -> (r: u8)
    ensures
        r == sort_priority(*msg),
{
    match msg {
        MidiMessage::NoteOn { .. } => 0,
        MidiMessage::ControlChange { .. } => 1,
        MidiMessage::NoteOff { .. } => 2,
        MidiMessage::ProgramChange { .. } => 1,
        _ => 3,
    }
}

/// `a` sorts before `b`: an earlier tick, or the same tick and a lower rank.
pub open spec fn key_lt(a: EventView, b: EventView) -> bool {
    a.tick < b.tick || (a.tick == b.tick && sort_priority(a.message) < sort_priority(b.message))
}

/// `a` and `b` tie: same tick and same rank.
pub open spec fn key_eq(a: EventView, b: EventView) -> bool {
    a.tick == b.tick && sort_priority(a.message) == sort_priority(b.message)
}

/// Event `j` comes before event `i` in the sorted clip.
pub open spec fn precedes(evs: Seq<EventView>, j: int, i: int) -> bool {
    key_lt(evs[j], evs[i]) || (key_eq(evs[j], evs[i]) && j < i)
}

/// How many of the first `k` events come before event `i`.
pub open spec fn count_preceding(evs: Seq<EventView>, i: int, k: int) -> nat
    decreases k,
{
    if k <= 0 {
        0
    } else {
        count_preceding(evs, i, k - 1) + if precedes(evs, k - 1, i) {
            1nat
        } else {
            0nat
        }
    }
}

/// Where event `i` goes: the number of events that come before it.
pub open spec fn sorted_position(evs: Seq<EventView>, i: int) -> nat {
    count_preceding(evs, i, evs.len() as int)
}

/// The event that goes to place `k`.
pub open spec fn position_source(evs: Seq<EventView>, k: int) -> int {
    choose|i: int| 0 <= i < evs.len() && sorted_position(evs, i) == k
}

/// The events in sorted order.
pub open spec fn stable_sorted(evs: Seq<EventView>) -> Seq<EventView> {
    Seq::new(evs.len(), |k: int| evs[position_source(evs, k)])
}

/// Ascending order of indices.
pub open spec fn index_le() -> spec_fn(usize, usize) -> bool {
    |a: usize, b: usize| a <= b
}

/// An index list after the sort: each index moved to its event's place,
/// then listed in ascending order.
pub open spec fn resorted_indices(evs: Seq<EventView>, idxs: Seq<usize>) -> Seq<usize> {
    idxs.map_values(|x: usize| sorted_position(evs, x as int) as usize).sort_by(index_le())
}

/// Every index of the list names one of `n` events.
pub open spec fn indices_below(idxs: Seq<usize>, n: int) -> bool {
    forall|j: int| 0 <= j < idxs.len() ==> #[trigger] idxs[j] < n
}

/// Every index of the drum groups names one of `n` events.
pub open spec fn drum_indices_below(gs: Seq<DrumGroupView>, n: int) -> bool {
    forall|g: int| 0 <= g < gs.len() ==> #[trigger] indices_below(gs[g].indices, n)
}

/// Every index of the random-choice groups names one of `n` events.
pub open spec fn random_indices_below(gs: Seq<Seq<Seq<usize>>>, n: int) -> bool {
    forall|g: int, c: int| 0 <= g < gs.len() && 0 <= c < gs[g].len() ==> #[trigger] indices_below(gs[g][c], n)
}

/// The drum groups after the sort.
pub open spec fn resorted_drums(evs: Seq<EventView>, gs: Seq<DrumGroupView>) -> Seq<DrumGroupView> {
    gs.map_values(|g: DrumGroupView| DrumGroupView { indices: resorted_indices(evs, g.indices), probability: g.probability })
}

/// A random-choice group after the sort.
pub open spec fn resorted_group(evs: Seq<EventView>, g: Seq<Seq<usize>>) -> Seq<Seq<usize>> {
    g.map_values(|c: Seq<usize>| resorted_indices(evs, c))
}

/// The random-choice groups after the sort.
pub open spec fn resorted_randoms(evs: Seq<EventView>, gs: Seq<Seq<Seq<usize>>>) -> Seq<Seq<Seq<usize>>> {
    gs.map_values(|g: Seq<Seq<usize>>| resorted_group(evs, g))
}

/// The message of a group index that names no event.
pub open spec fn stale_index_failure() -> Seq<char> {
    "グループのイベント番号が範囲外です"@
}

/// The error of a group index that names no event.
fn stale_index_error() -> (r: EngineError)
    ensures
        r matches EngineError::CompileError(s) && s@ == stale_index_failure(),
{
    EngineError::CompileError(owned("グループのイベント番号が範囲外です"))
}

/// At most `k` events come before event `i`, fewer when `i` is one of
/// them.
proof fn lemma_count_bound(evs: Seq<EventView>, i: int, k: int)
    requires
        0 <= k,
    ensures
        count_preceding(evs, i, k) <= k,
        0 <= i < k ==> count_preceding(evs, i, k) < k,
    decreases k,
{
    if k > 0 {
        lemma_count_bound(evs, i, k - 1);
    }
}

/// When `i` comes before `j`, so does everything before `i`, and `i`
/// itself.
pub proof fn lemma_count_mono(evs: Seq<EventView>, i: int, j: int, k: int)
    requires
        0 <= i < evs.len(),
        0 <= j < evs.len(),
        0 <= k <= evs.len(),
        precedes(evs, i, j),
    ensures
        count_preceding(evs, i, k) + (if i < k {
            1int
        } else {
            0int
        }) <= count_preceding(evs, j, k),
    decreases k,
{
    if k > 0 {
        lemma_count_mono(evs, i, j, k - 1);
    }
}

/// The sorted places are a permutation: each is below the number of
/// events, no two events share one, and every place is taken.
pub proof fn lemma_sorted_positions(evs: Seq<EventView>)
    ensures
        forall|i: int| 0 <= i < evs.len() ==> #[trigger] sorted_position(evs, i) < evs.len(),
        forall|i: int, j: int|
            0 <= i < evs.len() && 0 <= j < evs.len() && i != j ==> #[trigger] sorted_position(evs, i) != #[trigger] sorted_position(
                evs,
                j,
            ),
        forall|k: int|
            0 <= k < evs.len() ==> {
                let i = #[trigger] position_source(evs, k);
                0 <= i < evs.len() && sorted_position(evs, i) == k
            },
{
    let n = evs.len() as int;
    assert forall|i: int| 0 <= i < n implies #[trigger] sorted_position(evs, i) < n by {
        lemma_count_bound(evs, i, n);
    }
    assert forall|i: int, j: int| 0 <= i < n && 0 <= j < n && i != j implies #[trigger] sorted_position(evs, i)
        != #[trigger] sorted_position(evs, j) by {
        if precedes(evs, i, j) {
            lemma_count_mono(evs, i, j, n);
        } else {
            lemma_count_mono(evs, j, i, n);
        }
    }
    let dom = set_int_range(0, n);
    let f = |i: int| sorted_position(evs, i) as int;
    let img = dom.map(f);
    lemma_int_range(0, n);
    assert(injective_on(f, dom));
    lemma_map_size(dom, img, f);
    assert(img.subset_of(dom)) by {
        assert forall|k: int| img.contains(k) implies dom.contains(k) by {
            let i = choose|i: int| dom.contains(i) && f(i) == k;
            assert(sorted_position(evs, i) < n);
        }
    }
    lemma_subset_equality(img, dom);
    assert forall|k: int| 0 <= k < n implies {
        let i = #[trigger] position_source(evs, k);
        0 <= i < n && sorted_position(evs, i) == k
    } by {
        assert(dom.contains(k));
        assert(img.contains(k));
        let w = choose|i: int| dom.contains(i) && f(i) == k;
        assert(0 <= w < n && sorted_position(evs, w) == k);
    }
}

/// Whether event `j` comes before event `i`.
fn event_precedes(events: &Vec<MidiEvent>, j: usize, i: usize) -> (r: bool)
    requires
        j < events@.len(),
        i < events@.len(),
    ensures
        r == precedes(view_events(events@), j as int, i as int),
{
    let a = &events[j];
    let b = &events[i];
    let pa = event_sort_priority(&a.message);
    let pb = event_sort_priority(&b.message);
    a.tick < b.tick || (a.tick == b.tick && pa < pb) || (a.tick == b.tick && pa == pb && j < i)
}

/// The sorted place of every event.
fn positions(events: &Vec<MidiEvent>) -> (pos: Vec<usize>)
    ensures
        pos@.len() == events@.len(),
        forall|i: int| 0 <= i < events@.len() ==> #[trigger] pos@[i] == sorted_position(view_events(events@), i),
{
    let ghost evs = view_events(events@);
    let n = events.len();
    let mut pos: Vec<usize> = Vec::new();
    let mut i: usize = 0;
    while i < n
        invariant
            n == events@.len(),
            evs == view_events(events@),
            i <= n,
            pos@.len() == i,
            forall|t: int| 0 <= t < i ==> #[trigger] pos@[t] == sorted_position(evs, t),
        decreases n - i,
    {
        let mut c: usize = 0;
        let mut j: usize = 0;
        while j < n
            invariant
                n == events@.len(),
                evs == view_events(events@),
                i < n,
                j <= n,
                c == count_preceding(evs, i as int, j as int),
            decreases n - j,
        {
            proof {
                lemma_count_bound(evs, i as int, j + 1);
            }
            if event_precedes(events, j, i) {
                c = c + 1;
            }
            j += 1;
        }
        pos.push(c);
        i += 1;
    }
    pos
}

/// An event with the same tick, message and device.
fn copy_event(e: &MidiEvent) -> (r: MidiEvent)
    ensures
        view_event(r) == view_event(*e),
{
    MidiEvent { tick: e.tick, message: e.message, device: e.device.clone() }
}

/// The events in sorted order, with the sorted place of each.
fn sort_events(events: &Vec<MidiEvent>) -> (r: (Vec<MidiEvent>, Vec<usize>))
    ensures
        view_events(r.0@) == stable_sorted(view_events(events@)),
        r.1@.len() == events@.len(),
        forall|i: int| 0 <= i < events@.len() ==> #[trigger] r.1@[i] == sorted_position(view_events(events@), i),
{
    let ghost evs = view_events(events@);
    let n = events.len();
    let pos = positions(events);
    proof {
        lemma_sorted_positions(evs);
    }
    let mut source: Vec<usize> = Vec::new();
    let mut k: usize = 0;
    while k < n
        invariant
            k <= n,
            source@.len() == k,
            forall|t: int| 0 <= t < k ==> #[trigger] source@[t] == 0,
        decreases n - k,
    {
        source.push(0);
        k += 1;
    }
    let mut i: usize = 0;
    while i < n
        invariant
            n == events@.len(),
            evs == view_events(events@),
            pos@.len() == n,
            forall|t: int| 0 <= t < n ==> #[trigger] pos@[t] == sorted_position(evs, t),
            forall|t: int| 0 <= t < n ==> #[trigger] sorted_position(evs, t) < n,
            forall|a: int, b: int|
                0 <= a < n && 0 <= b < n && a != b ==> #[trigger] sorted_position(evs, a) != #[trigger] sorted_position(evs, b),
            i <= n,
            source@.len() == n,
            forall|t: int| 0 <= t < i ==> #[trigger] source@[sorted_position(evs, t) as int] == t,
        decreases n - i,
    {
        let p = pos[i];
        assert(p == sorted_position(evs, i as int));
        source.set(p, i);
        assert forall|t: int| 0 <= t < i + 1 implies #[trigger] source@[sorted_position(evs, t) as int] == t by {
            if t != i {
                assert(sorted_position(evs, t) != sorted_position(evs, i as int));
            }
        }
        i += 1;
    }
    let mut out: Vec<MidiEvent> = Vec::new();
    let mut k: usize = 0;
    while k < n
        invariant
            n == events@.len(),
            evs == view_events(events@),
            source@.len() == n,
            forall|t: int| 0 <= t < n ==> #[trigger] sorted_position(evs, t) < n,
            forall|t: int| 0 <= t < n ==> #[trigger] source@[sorted_position(evs, t) as int] == t,
            forall|q: int|
                0 <= q < n ==> {
                    let w = #[trigger] position_source(evs, q);
                    0 <= w < n && sorted_position(evs, w) == q
                },
            k <= n,
            view_events(out@) == stable_sorted(evs).take(k as int),
        decreases n - k,
    {
        let ghost w = position_source(evs, k as int);
        assert(source@[sorted_position(evs, w) as int] == w);
        let src = source[k];
        assert(src == w);
        let e = copy_event(&events[src]);
        let ghost pre = out@;
        out.push(e);
        assert(view_events(out@) =~= stable_sorted(evs).take(k + 1)) by {
            assert(out@ == pre.push(e));
            assert(view_events(out@) =~= view_events(pre).push(view_event(e)));
            assert(stable_sorted(evs)[k as int] == evs[w]);
            assert(evs[w] == view_event(events@[w]));
            assert(stable_sorted(evs).take(k + 1) =~= stable_sorted(evs).take(k as int).push(stable_sorted(evs)[k as int]));
        }
        k += 1;
    }
    assert(stable_sorted(evs).take(n as int) =~= stable_sorted(evs));
    (out, pos)
}

/// `index_le` is a total order.
proof fn lemma_index_le_total()
    ensures
        total_ordering(index_le()),
{
    let leq = index_le();
    assert forall|x: usize| #[trigger] leq(x, x) by {}
    assert forall|x: usize, y: usize| #[trigger] leq(x, y) && #[trigger] leq(y, x) implies x == y by {}
    assert forall|x: usize, y: usize, z: usize| #[trigger] leq(x, y) && #[trigger] leq(y, z) implies leq(x, z) by {}
    assert forall|x: usize, y: usize| #[trigger] leq(x, y) || #[trigger] leq(y, x) by {}
}

/// The indices in ascending order.
fn sort_indices(v: &Vec<usize>) -> (r: Vec<usize>)
    ensures
        r@ == v@.sort_by(index_le()),
{
    broadcast use vstd::multiset::group_multiset_axioms;

    let ghost leq = index_le();
    let mut out: Vec<usize> = Vec::new();
    let mut i: usize = 0;
    assert(v@.take(0) =~= Seq::<usize>::empty());
    while i < v.len()
        invariant
            leq == index_le(),
            i <= v@.len(),
            sorted_by(out@, leq),
            out@.to_multiset() == v@.take(i as int).to_multiset(),
        decreases v@.len() - i,
    {
        let x = v[i];
        let mut p: usize = 0;
        while p < out.len() && out[p] <= x
            invariant
                p <= out@.len(),
                forall|t: int| 0 <= t < p ==> #[trigger] out@[t] <= x,
            decreases out@.len() - p,
        {
            p += 1;
        }
        let ghost before = out@;
        out.insert(p, x);
        proof {
            assert(out@ == before.insert(p as int, x));
            assert forall|a: int, b: int| 0 <= a < b < out@.len() implies #[trigger] leq(out@[a], out@[b]) by {
                if b < p {
                    assert(leq(before[a], before[b]));
                } else if b == p {
                    assert(out@[a] == before[a]);
                } else if a < p {
                    assert(out@[b] == before[b - 1]);
                    if p < before.len() {
                        assert(before[p as int] > x);
                        assert(leq(before[p as int], before[b - 1]) || p == b - 1);
                    }
                } else if a == p {
                    assert(out@[b] == before[b - 1]);
                    assert(before[p as int] > x);
                    assert(leq(before[p as int], before[b - 1]) || p == b - 1);
                } else {
                    assert(leq(before[a - 1], before[b - 1]));
                }
            }
            assert(out@.remove(p as int) =~= before);
            out@.to_multiset_ensures();
            assert(out@[p as int] == x);
            assert(out@.remove(p as int).to_multiset() =~= out@.to_multiset().remove(x));
            assert(out@.contains(x));
            assert(out@.to_multiset().count(x) > 0);
            assert(out@.to_multiset() =~= before.to_multiset().insert(x));
            assert(v@.take(i + 1) =~= v@.take(i as int).push(x));
            v@.take(i as int).to_multiset_ensures();
            assert(v@.take(i + 1).to_multiset() =~= v@.take(i as int).to_multiset().insert(x));
        }
        i += 1;
    }
    proof {
        assert(v@.take(i as int) =~= v@);
        lemma_index_le_total();
        v@.lemma_sort_by_ensures(leq);
        vstd::seq_lib::lemma_sorted_unique(out@, v@.sort_by(leq), leq);
    }
    out
}

/// An index list moved to the sorted places and put in ascending order.
fn resort_indices(idxs: &Vec<usize>, pos: &Vec<usize>, Ghost(evs): Ghost<Seq<EventView>>) -> (r: Vec<usize>)
    requires
        pos@.len() == evs.len(),
        forall|i: int| 0 <= i < evs.len() ==> #[trigger] pos@[i] == sorted_position(evs, i),
        indices_below(idxs@, evs.len() as int),
    ensures
        r@ == resorted_indices(evs, idxs@),
{
    let mut moved: Vec<usize> = Vec::new();
    let mut j: usize = 0;
    while j < idxs.len()
        invariant
            pos@.len() == evs.len(),
            forall|i: int| 0 <= i < evs.len() ==> #[trigger] pos@[i] == sorted_position(evs, i),
            indices_below(idxs@, evs.len() as int),
            j <= idxs@.len(),
            moved@ == idxs@.take(j as int).map_values(|x: usize| sorted_position(evs, x as int) as usize),
        decreases idxs@.len() - j,
    {
        let x = idxs[j];
        assert(x < evs.len());
        moved.push(pos[x]);
        assert(moved@ =~= idxs@.take(j + 1).map_values(|x: usize| sorted_position(evs, x as int) as usize));
        j += 1;
    }
    assert(idxs@.take(j as int) =~= idxs@);
    sort_indices(&moved)
}

/// Whether every index of the list names one of `n` events.
fn all_below(idxs: &Vec<usize>, n: usize) -> (r: bool)
    ensures
        r == indices_below(idxs@, n as int),
{
    let mut j: usize = 0;
    while j < idxs.len()
        invariant
            j <= idxs@.len(),
            forall|t: int| 0 <= t < j ==> #[trigger] idxs@[t] < n,
        decreases idxs@.len() - j,
    {
        if idxs[j] >= n {
            return false;
        }
        j += 1;
    }
    true
}

/// Sorts a clip's events and moves its group indices along: see
/// `stable_sorted`, `resorted_drums` and `resorted_randoms`. A group index
/// that names no event is an error.
pub fn sort_clip(events: &Vec<MidiEvent>, drums: &Vec<DrumProbabilityGroup>, randoms: &Vec<RandomChoiceGroup>) -> (r: Result<
    (Vec<MidiEvent>, Vec<DrumProbabilityGroup>, Vec<RandomChoiceGroup>),
    EngineError,
>)
    ensures
        ({
            let evs = view_events(events@);
            if drum_indices_below(view_drum_groups(drums@), evs.len() as int) && random_indices_below(
                view_groups(randoms@),
                evs.len() as int,
            ) {
                r matches Ok((e2, d2, g2)) && view_events(e2@) == stable_sorted(evs) && view_drum_groups(d2@) == resorted_drums(
                    evs,
                    view_drum_groups(drums@),
                ) && view_groups(g2@) == resorted_randoms(evs, view_groups(randoms@))
            } else {
                r matches Err(EngineError::CompileError(s)) && s@ == stale_index_failure()
            }
        }),
{
    let ghost evs = view_events(events@);
    let n = events.len();
    let ghost dv = view_drum_groups(drums@);
    let ghost gv = view_groups(randoms@);
    let mut g: usize = 0;
    while g < drums.len()
        invariant
            n == evs.len(),
            evs == view_events(events@),
            dv == view_drum_groups(drums@),
            g <= drums@.len(),
            forall|t: int| 0 <= t < g ==> #[trigger] indices_below(dv[t].indices, n as int),
        decreases drums@.len() - g,
    {
        assert(dv[g as int].indices == drums@[g as int].event_indices@);
        if !all_below(&drums[g].event_indices, n) {
            assert(!indices_below(dv[g as int].indices, n as int));
            assert(!drum_indices_below(dv, n as int));
            return Err(stale_index_error());
        }
        g += 1;
    }
    let mut g: usize = 0;
    while g < randoms.len()
        invariant
            n == evs.len(),
            evs == view_events(events@),
            dv == view_drum_groups(drums@),
            forall|t: int| 0 <= t < dv.len() ==> #[trigger] indices_below(dv[t].indices, n as int),
            gv == view_groups(randoms@),
            g <= randoms@.len(),
            forall|t: int, c: int| 0 <= t < g && 0 <= c < gv[t].len() ==> #[trigger] indices_below(gv[t][c], n as int),
        decreases randoms@.len() - g,
    {
        let mut c: usize = 0;
        while c < randoms[g].candidates.len()
            invariant
                n == evs.len(),
                evs == view_events(events@),
                dv == view_drum_groups(drums@),
                forall|t: int| 0 <= t < dv.len() ==> #[trigger] indices_below(dv[t].indices, n as int),
                gv == view_groups(randoms@),
                g < randoms@.len(),
                c <= randoms@[g as int].candidates@.len(),
                forall|t: int, q: int| 0 <= t < g && 0 <= q < gv[t].len() ==> #[trigger] indices_below(gv[t][q], n as int),
                forall|q: int| 0 <= q < c ==> #[trigger] indices_below(gv[g as int][q], n as int),
            decreases randoms@[g as int].candidates@.len() - c,
        {
            assert(gv[g as int][c as int] == randoms@[g as int].candidates@[c as int]@);
            if !all_below(&randoms[g].candidates[c], n) {
                assert(!indices_below(gv[g as int][c as int], n as int));
                assert(!random_indices_below(gv, n as int));
                return Err(stale_index_error());
            }
            c += 1;
        }
        g += 1;
    }
    let (sorted, pos) = sort_events(events);
    let mut d2: Vec<DrumProbabilityGroup> = Vec::new();
    let mut g: usize = 0;
    while g < drums.len()
        invariant
            n == evs.len(),
            evs == view_events(events@),
            dv == view_drum_groups(drums@),
            pos@.len() == n,
            forall|i: int| 0 <= i < n ==> #[trigger] pos@[i] == sorted_position(evs, i),
            forall|t: int| 0 <= t < dv.len() ==> #[trigger] indices_below(dv[t].indices, n as int),
            g <= drums@.len(),
            view_drum_groups(d2@) == resorted_drums(evs, dv.take(g as int)),
        decreases drums@.len() - g,
    {
        assert(dv[g as int].indices == drums@[g as int].event_indices@);
        assert(indices_below(dv[g as int].indices, n as int));
        let idx = resort_indices(&drums[g].event_indices, &pos, Ghost(evs));
        let ghost pre = d2@;
        let grp = DrumProbabilityGroup { event_indices: idx, probability: drums[g].probability };
        d2.push(grp);
        assert(view_drum_groups(d2@) =~= resorted_drums(evs, dv.take(g + 1))) by {
            assert(d2@ == pre.push(grp));
            assert(view_drum_groups(d2@) =~= view_drum_groups(pre).push(
                DrumGroupView { indices: resorted_indices(evs, dv[g as int].indices), probability: dv[g as int].probability },
            ));
            assert(dv.take(g + 1) =~= dv.take(g as int).push(dv[g as int]));
            assert(resorted_drums(evs, dv.take(g + 1)) =~= resorted_drums(evs, dv.take(g as int)).push(
                DrumGroupView { indices: resorted_indices(evs, dv[g as int].indices), probability: dv[g as int].probability },
            ));
        }
        g += 1;
    }
    assert(dv.take(g as int) =~= dv);
    let mut g2: Vec<RandomChoiceGroup> = Vec::new();
    let mut g: usize = 0;
    while g < randoms.len()
        invariant
            n == evs.len(),
            evs == view_events(events@),
            gv == view_groups(randoms@),
            pos@.len() == n,
            forall|i: int| 0 <= i < n ==> #[trigger] pos@[i] == sorted_position(evs, i),
            forall|t: int, c: int| 0 <= t < gv.len() && 0 <= c < gv[t].len() ==> #[trigger] indices_below(gv[t][c], n as int),
            g <= randoms@.len(),
            view_groups(g2@) == resorted_randoms(evs, gv.take(g as int)),
        decreases randoms@.len() - g,
    {
        let ghost src = gv[g as int];
        assert(src == candidates_of(randoms@[g as int]));
        let mut cands: Vec<Vec<usize>> = Vec::new();
        let mut c: usize = 0;
        while c < randoms[g].candidates.len()
            invariant
                n == evs.len(),
                pos@.len() == n,
                forall|i: int| 0 <= i < n ==> #[trigger] pos@[i] == sorted_position(evs, i),
                forall|t: int, q: int| 0 <= t < gv.len() && 0 <= q < gv[t].len() ==> #[trigger] indices_below(gv[t][q], n as int),
                gv == view_groups(randoms@),
                g < randoms@.len(),
                src == gv[g as int],
                src == candidates_of(randoms@[g as int]),
                c <= src.len(),
                cands@.map_values(|v: Vec<usize>| v@) == resorted_group(evs, src.take(c as int)),
            decreases src.len() - c,
        {
            assert(src[c as int] == randoms@[g as int].candidates@[c as int]@);
            assert(indices_below(gv[g as int][c as int], n as int));
            let v = resort_indices(&randoms[g].candidates[c], &pos, Ghost(evs));
            let ghost pre = cands@;
            cands.push(v);
            assert(cands@.map_values(|v: Vec<usize>| v@) =~= resorted_group(evs, src.take(c + 1))) by {
                assert(cands@ == pre.push(v));
                assert(cands@.map_values(|v: Vec<usize>| v@) =~= pre.map_values(|v: Vec<usize>| v@).push(v@));
                assert(src.take(c + 1) =~= src.take(c as int).push(src[c as int]));
                assert(resorted_group(evs, src.take(c + 1)) =~= resorted_group(evs, src.take(c as int)).push(
                    resorted_indices(evs, src[c as int]),
                ));
            }
            c += 1;
        }
        assert(src.take(c as int) =~= src);
        let ghost pre = g2@;
        let grp = RandomChoiceGroup { candidates: cands };
        g2.push(grp);
        assert(view_groups(g2@) =~= resorted_randoms(evs, gv.take(g + 1))) by {
            assert(g2@ == pre.push(grp));
            assert(candidates_of(grp) == resorted_group(evs, src));
            assert(view_groups(g2@) =~= view_groups(pre).push(candidates_of(grp)));
            assert(gv.take(g + 1) =~= gv.take(g as int).push(gv[g as int]));
            assert(resorted_randoms(evs, gv.take(g + 1)) =~= resorted_randoms(evs, gv.take(g as int)).push(
                resorted_group(evs, gv[g as int]),
            ));
        }
        g += 1;
    }
    assert(gv.take(g as int) =~= gv);
    Ok((sorted, d2, g2))
}

} // verus!
