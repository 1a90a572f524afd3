//! Arpeggio order: chord tones arranged into one cycle of an arpeggio.

use vstd::prelude::*;

use vstd::relations::{sorted_by, total_ordering};
use vstd::seq_lib::{lemma_sorted_unique, to_multiset_insert};

use crate::ast::ArpeggioDirection;

verus! {

/// The order `<=` on note numbers.
pub open spec fn note_le() -> spec_fn(u8, u8) -> bool {
    |a: u8, b: u8| a <= b
}

/// The notes in ascending order.
pub open spec fn ascending(notes: Seq<u8>) -> Seq<u8> {
    notes.sort_by(note_le())
}

/// One arpeggio cycle: ascending for up, descending for down, up then back
/// down without repeating either end for up-down, and written order for
/// random (the choice is made per loop by the player).
pub open spec fn arpeggio_sequence(notes: Seq<u8>, direction: ArpeggioDirection) -> Seq<u8> {
    if notes.len() == 0 {
        Seq::empty()
    } else {
        match direction {
            ArpeggioDirection::Up => ascending(notes),
            ArpeggioDirection::Down => ascending(notes).reverse(),
            ArpeggioDirection::UpDown => if notes.len() >= 2 {
                ascending(notes) + ascending(notes).subrange(1, notes.len() - 1).reverse()
            } else {
                ascending(notes)
            },
            ArpeggioDirection::Random => notes,
        }
    }
}

proof fn lemma_note_le_total()
    ensures
        total_ordering(note_le()),
{
    reveal(vstd::relations::total_ordering);
}

/// The notes sorted ascending.
pub fn sort_ascending(notes: &Vec<u8>) -> (r: Vec<u8>)
    ensures
        r@ == ascending(notes@),
        r@.len() == notes@.len(),
{
    let mut out: Vec<u8> = Vec::new();
    let mut i: usize = 0;
    assert(notes@.take(0) =~= out@);
    while i < notes.len()
        invariant
            i <= notes@.len(),
            sorted_by(out@, note_le()),
            out@.to_multiset() == notes@.take(i as int).to_multiset(),
        decreases notes@.len() - i,
    {
        let x = notes[i];
        let mut j: usize = 0;
        while j < out.len() && out[j] <= x
            invariant
                j <= out@.len(),
                forall|k: int| 0 <= k < j ==> out@[k] <= x,
            decreases out@.len() - j,
        {
            j += 1;
        }
        let ghost pre = out@;
        out.insert(j, x);
        proof {
            assert(out@ == pre.insert(j as int, x));
            to_multiset_insert(pre, j as int, x);
            assert(notes@.take(i + 1) =~= notes@.take(i as int).push(x));
            notes@.take(i as int).to_multiset_ensures();
            assert forall|a: int, b: int| 0 <= a < b < out@.len() implies #[trigger] (note_le())(out@[a], out@[b]) by {
                if b < j {
                    assert((note_le())(pre[a], pre[b]));
                } else if b == j {
                    assert(out@[a] == pre[a]);
                } else if a == j {
                    assert(out@[b] == pre[b - 1]);
                    if j < pre.len() {
                        assert(!(pre[j as int] <= x) || j == out@.len());
                    }
                    if b - 1 > j {
                        assert((note_le())(pre[j as int], pre[b - 1]));
                    }
                } else if a < j {
                    assert(out@[a] == pre[a] && out@[b] == pre[b - 1]);
                    if a < b - 1 {
                        assert((note_le())(pre[a], pre[b - 1]));
                    }
                } else {
                    assert(out@[a] == pre[a - 1] && out@[b] == pre[b - 1]);
                    assert((note_le())(pre[a - 1], pre[b - 1]));
                }
            }
        }
        i += 1;
    }
    proof {
        assert(notes@.take(notes@.len() as int) =~= notes@);
        lemma_note_le_total();
        notes@.lemma_sort_by_ensures(note_le());
        lemma_sorted_unique(out@, ascending(notes@), note_le());
        out@.to_multiset_ensures();
        notes@.to_multiset_ensures();
    }
    out
}

/// One cycle of an arpeggio over `notes` in `direction`.
pub fn build_arpeggio_sequence(notes: &Vec<u8>, direction: ArpeggioDirection) -> (r: Vec<u8>)
    ensures
        r@ == arpeggio_sequence(notes@, direction),
{
    if notes.len() == 0 {
        return Vec::new();
    }
    match direction {
        ArpeggioDirection::Up => {
            let r = sort_ascending(notes);
            assert(notes@.len() != 0);
            assert(r@ == ascending(notes@));
            assert(arpeggio_sequence(notes@, direction) == ascending(notes@));
            r
        },
        ArpeggioDirection::Down => {
            let sorted = sort_ascending(notes);
            let mut out: Vec<u8> = Vec::new();
            let n = sorted.len();
            let mut k: usize = 0;
            while k < n
                invariant
                    n == sorted@.len(),
                    k <= n,
                    out@ == sorted@.reverse().take(k as int),
                decreases n - k,
            {
                out.push(sorted[n - 1 - k]);
                assert(out@ =~= sorted@.reverse().take(k + 1));
                k += 1;
            }
            assert(sorted@.reverse().take(n as int) =~= sorted@.reverse());
            assert(out@ == arpeggio_sequence(notes@, direction));
            out
        },
        ArpeggioDirection::UpDown => {
            let sorted = sort_ascending(notes);
            let n = sorted.len();
            let mut out: Vec<u8> = Vec::new();
            let mut k: usize = 0;
            while k < n
                invariant
                    n == sorted@.len(),
                    k <= n,
                    out@ == sorted@.take(k as int),
                decreases n - k,
            {
                out.push(sorted[k]);
                assert(out@ =~= sorted@.take(k + 1));
                k += 1;
            }
            assert(sorted@.take(n as int) =~= sorted@);
            if n >= 2 {
                let ghost mid = sorted@.subrange(1, n - 1).reverse();
                let mut k: usize = 0;
                while k < n - 2
                    invariant
                        n == sorted@.len(),
                        n >= 2,
                        k <= n - 2,
                        mid == sorted@.subrange(1, n - 1).reverse(),
                        out@ == sorted@ + mid.take(k as int),
                    decreases n - 2 - k,
                {
                    out.push(sorted[n - 2 - k]);
                    assert(out@ =~= sorted@ + mid.take(k + 1));
                    k += 1;
                }
                assert(mid.take((n - 2) as int) =~= mid);
            }
            assert(out@ == arpeggio_sequence(notes@, direction));
            out
        },
        ArpeggioDirection::Random => {
            let mut out: Vec<u8> = Vec::new();
            let n = notes.len();
            let mut k: usize = 0;
            while k < n
                invariant
                    n == notes@.len(),
                    k <= n,
                    out@ == notes@.take(k as int),
                decreases n - k,
            {
                out.push(notes[k]);
                assert(out@ =~= notes@.take(k + 1));
                k += 1;
            }
            assert(notes@.take(n as int) =~= notes@);
            assert(out@ == arpeggio_sequence(notes@, direction));
            out
        },
    }
}

} // verus!
