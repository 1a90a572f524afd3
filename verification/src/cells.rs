//! Normalization of the cells of a CC step line: `|` snaps to a beat
//! boundary (padding with empty cells or cutting back), `>n` moves the
//! write position to the head of bar `n`, and the line is sized to whole
//! bars.

use vstd::prelude::*;

use crate::ast::CellToken;
use crate::text::{decimal, owned, u64_to_string};

verus! {

/// Tokens after `|` resolution, and where the current segment began.
pub struct PipeState {
    pub out: Seq<CellToken>,
    pub anchor: nat,
}

/// The tokens after `|` resolution of the first `n` tokens: a segment of
/// at most one beat is padded with empty cells to one beat, a longer one
/// is cut back to its last whole beat; `>n` tokens pass and start a new
/// segment.
pub open spec fn pipe_fold(cells: Seq<CellToken>, beat: nat, n: int) -> PipeState
    decreases n,
{
    if n <= 0 {
        PipeState { out: Seq::empty(), anchor: 0 }
    } else {
        let prev = pipe_fold(cells, beat, n - 1);
        match cells[n - 1] {
            CellToken::Cell(v) => PipeState { out: prev.out.push(CellToken::Cell(v)), ..prev },
            CellToken::BarJump(b) => PipeState {
                out: prev.out.push(CellToken::BarJump(b)),
                anchor: prev.out.len() + 1,
            },
            CellToken::Pipe => {
                let since = prev.out.len() - prev.anchor;
                let out = if since <= beat {
                    prev.out + Seq::new((prev.anchor + beat - prev.out.len()) as nat, |k: int| CellToken::Cell(None))
                } else {
                    prev.out.take(prev.anchor + (since / (beat as int)) * beat)
                };
                PipeState { out, anchor: out.len() }
            },
        }
    }
}

/// Resolves the `|` tokens of a CC step line (`beat` cells per beat).
pub fn expand_pipe_cells(cells: &Vec<CellToken>, beat: usize) -> (r: Vec<CellToken>)
    requires
        beat > 0,
    ensures
        r@ == pipe_fold(cells@, beat as nat, cells@.len() as int).out,
{
    let mut out: Vec<CellToken> = Vec::new();
    let mut anchor: usize = 0;
    let mut i: usize = 0;
    while i < cells.len()
        invariant
            beat > 0,
            i <= cells@.len(),
            out@ == pipe_fold(cells@, beat as nat, i as int).out,
            anchor == pipe_fold(cells@, beat as nat, i as int).anchor,
            anchor <= out@.len(),
        decreases cells@.len() - i,
    {
        match cells[i] {
            CellToken::Cell(v) => {
                out.push(CellToken::Cell(v));
            },
            CellToken::BarJump(b) => {
                out.push(CellToken::BarJump(b));
                anchor = out.len();
            },
            CellToken::Pipe => {
                let since = out.len() - anchor;
                if since <= beat {
                    let ghost pre = out@;
                    let pad = beat - since;
                    let mut k: usize = 0;
                    while k < pad
                        invariant
                            k <= pad,
                            out@ == pre + Seq::new(k as nat, |q: int| CellToken::Cell(None)),
                        decreases pad - k,
                    {
                        out.push(CellToken::Cell(None));
                        assert(out@ =~= pre + Seq::new((k + 1) as nat, |q: int| CellToken::Cell(None)));
                        k += 1;
                    }
                } else {
                    proof {
                        assert((since / beat) * beat <= since) by (nonlinear_arith)
                            requires
                                beat > 0,
                        ;
                    }
                    let keep = anchor + (since / beat) * beat;
                    out.truncate(keep);
                    assert(out@ =~= pipe_fold(cells@, beat as nat, i as int).out.take(keep as int));
                }
                anchor = out.len();
            },
        }
        i += 1;
    }
    out
}

/// Cells after `>n` resolution, and the write position.
pub struct JumpState {
    pub out: Seq<Option<u8>>,
    pub cursor: nat,
}

/// `s` padded with empty cells to length `n`, or cut to it.
pub open spec fn sized(s: Seq<Option<u8>>, n: nat) -> Seq<Option<u8>> {
    if s.len() >= n {
        s.take(n as int)
    } else {
        s + Seq::new((n - s.len()) as nat, |k: int| None::<u8>)
    }
}

/// The message of a `>n` beyond the line's bars.
pub open spec fn cell_jump_failure(bar: u32, bars: nat) -> Seq<char> {
    ">"@ + decimal(bar as nat) + "はbars="@ + decimal(bars) + "の範囲外です"@
}

/// The message of a line whose cells do not fit in memory addresses.
pub open spec fn too_many_cells() -> Seq<char> {
    "セル数が多すぎます"@
}

/// The message of a `>0`.
pub open spec fn cell_jump_zero_failure() -> Seq<char> {
    ">0 は小節番号として使えません"@
}

/// The cells after `>n` resolution of the first `n` tokens: a cell is
/// written at the write position (overwriting, or padding with empty
/// cells up to it) and the position moves on; `>b` moves it to the head
/// of bar `b`, which must lie within `total` cells when the line has a
/// fixed length.
pub open spec fn jump_fold(tokens: Seq<CellToken>, per_bar: nat, total: Option<nat>, n: int) -> Result<JumpState, Seq<char>>
    decreases n,
{
    if n <= 0 {
        Ok(JumpState { out: Seq::empty(), cursor: 0 })
    } else {
        match jump_fold(tokens, per_bar, total, n - 1) {
            Err(m) => Err(m),
            Ok(prev) => match tokens[n - 1] {
                CellToken::Cell(v) => {
                    if prev.cursor + 1 > usize::MAX {
                        Err(too_many_cells())
                    } else {
                        let grown = sized(prev.out, if prev.out.len() > prev.cursor + 1 {
                            prev.out.len()
                        } else {
                            prev.cursor + 1
                        });
                        Ok(JumpState { out: grown.update(prev.cursor as int, v), cursor: prev.cursor + 1 })
                    }
                },
                CellToken::BarJump(b) => {
                    if b == 0 {
                        Err(cell_jump_zero_failure())
                    } else {
                        let target = ((b - 1) * per_bar) as nat;
                        if total matches Some(t) && target >= t {
                            Err(cell_jump_failure(b, if per_bar == 0 { 0 } else { total->Some_0 / per_bar }))
                        } else if target > usize::MAX {
                            Err(too_many_cells())
                        } else {
                            Ok(JumpState { cursor: target, ..prev })
                        }
                    }
                },
                CellToken::Pipe => Ok(prev),
            },
        }
    }
}

/// The line length in cells: the fixed total, else the written cells
/// rounded up to whole bars.
pub open spec fn line_length(len: nat, per_bar: nat, total: Option<nat>) -> nat {
    match total {
        Some(t) => t,
        None => if per_bar == 0 {
            len
        } else {
            (((len + per_bar - 1) / (per_bar as int)) * per_bar) as nat
        },
    }
}

/// The resolved cells of a step line.
pub open spec fn expand_jumps_spec(tokens: Seq<CellToken>, per_bar: nat, total: Option<nat>) -> Result<Seq<Option<u8>>, Seq<char>> {
    match jump_fold(tokens, per_bar, total, tokens.len() as int) {
        Err(m) => Err(m),
        Ok(st) => if line_length(st.out.len(), per_bar, total) > usize::MAX {
            Err(too_many_cells())
        } else {
            Ok(sized(st.out, line_length(st.out.len(), per_bar, total)))
        },
    }
}

/// Once the resolution of a prefix fails, the whole line fails the same.
proof fn lemma_jump_fold_err(tokens: Seq<CellToken>, per_bar: nat, total: Option<nat>, i: int, n: int)
    requires
        0 <= i <= n,
        jump_fold(tokens, per_bar, total, i) is Err,
    ensures
        jump_fold(tokens, per_bar, total, n) == jump_fold(tokens, per_bar, total, i),
    decreases n - i,
{
    if i < n {
        lemma_jump_fold_err(tokens, per_bar, total, i, n - 1);
    }
}

/// Pads or cuts `v` to `n` cells.
fn resize_cells(v: &mut Vec<Option<u8>>, n: usize)
    ensures
        final(v)@ == sized(old(v)@, n as nat),
{
    if v.len() >= n {
        v.truncate(n);
        assert(v@ =~= sized(old(v)@, n as nat));
    } else {
        let ghost pre = v@;
        while v.len() < n
            invariant
                pre.len() <= v@.len() <= n,
                v@ == pre + Seq::new((v@.len() - pre.len()) as nat, |k: int| None::<u8>),
            decreases n - v@.len(),
        {
            let ghost len0 = v@.len();
            v.push(None);
            assert(v@ =~= pre + Seq::new((v@.len() - pre.len()) as nat, |k: int| None::<u8>));
        }
        assert(v@ =~= sized(pre, n as nat));
    }
}

/// Resolves the `>n` tokens of a `|`-resolved step line into cells,
/// `per_bar` cells per bar, sized to `total` cells or to whole bars.
pub fn expand_bar_jump_cells(tokens: &Vec<CellToken>, per_bar: usize, total: Option<usize>) -> (r: Result<Vec<Option<u8>>, String>)
    ensures
        match expand_jumps_spec(
            tokens@,
            per_bar as nat,
            match total {
                Some(t) => Some(t as nat),
                None => None,
            },
        ) {
            Ok(cells) => r matches Ok(v) && v@ == cells,
            Err(m) => r matches Err(s) && s@ == m,
        },
{
    let ghost tot = match total {
        Some(t) => Some(t as nat),
        None => None::<nat>,
    };
    let mut out: Vec<Option<u8>> = Vec::new();
    let mut cursor: usize = 0;
    let mut i: usize = 0;
    while i < tokens.len()
        invariant
            i <= tokens@.len(),
            tot == match total {
                Some(t) => Some(t as nat),
                None => None::<nat>,
            },
            jump_fold(tokens@, per_bar as nat, tot, i as int) == Ok::<JumpState, Seq<char>>(JumpState { out: out@, cursor: cursor as nat }),
            expand_jumps_spec(tokens@, per_bar as nat, tot) == (match jump_fold(tokens@, per_bar as nat, tot, tokens@.len() as int) {
                Err(m) => Err(m),
                Ok(st) => if line_length(st.out.len(), per_bar as nat, tot) > usize::MAX {
                    Err(too_many_cells())
                } else {
                    Ok(sized(st.out, line_length(st.out.len(), per_bar as nat, tot)))
                },
            }),
        decreases tokens@.len() - i,
    {
        match tokens[i] {
            CellToken::Cell(v) => {
                if cursor == usize::MAX {
                    proof { lemma_jump_fold_err(tokens@, per_bar as nat, tot, i + 1, tokens@.len() as int); }
                    return Err(owned("セル数が多すぎます"));
                }
                let want = if out.len() > cursor + 1 { out.len() } else { cursor + 1 };
                resize_cells(&mut out, want);
                out.set(cursor, v);
                cursor = cursor + 1;
            },
            CellToken::BarJump(b) => {
                if b == 0 {
                    proof { lemma_jump_fold_err(tokens@, per_bar as nat, tot, i + 1, tokens@.len() as int); }
                    return Err(owned(">0 は小節番号として使えません"));
                }
                proof {
                    assert(((b - 1) as int) * (per_bar as int) <= 0xffff_ffff * 0xffff_ffff_ffff_ffff) by (nonlinear_arith)
                        requires
                            b - 1 <= 0xffff_ffff,
                            per_bar <= 0xffff_ffff_ffff_ffff,
                    ;
                }
                let target128: u128 = ((b - 1) as u128) * (per_bar as u128);
                match total {
                    Some(t) => {
                        if target128 >= t as u128 {
                            let bars_n = if per_bar == 0 { 0 } else { t / per_bar };
                            let mut m = owned(">");
                            m.append(u64_to_string(b as u64).as_str());
                            m.append("はbars=");
                            m.append(u64_to_string(bars_n as u64).as_str());
                            m.append("の範囲外です");
                            assert(m@ =~= cell_jump_failure(b, (bars_n as nat)));
                            proof { lemma_jump_fold_err(tokens@, per_bar as nat, tot, i + 1, tokens@.len() as int); }
                            return Err(m);
                        }
                        cursor = target128 as usize;
                    },
                    None => {
                        if target128 > usize::MAX as u128 {
                            proof { lemma_jump_fold_err(tokens@, per_bar as nat, tot, i + 1, tokens@.len() as int); }
                            return Err(owned("セル数が多すぎます"));
                        }
                        cursor = target128 as usize;
                    },
                }
            },
            CellToken::Pipe => {},
        }
        i += 1;
    }
    let n = match total {
        Some(t) => t,
        None => {
            if per_bar == 0 {
                out.len()
            } else {
                let bars_n = (out.len() as u128 + per_bar as u128 - 1) / (per_bar as u128);
                proof {
                    let x = out.len() as int + per_bar as int - 1;
                    assert(bars_n * (per_bar as int) <= x) by (nonlinear_arith)
                        requires
                            per_bar > 0,
                            bars_n == x / (per_bar as int),
                            x >= 0,
                    ;
                }
                let cells = bars_n * (per_bar as u128);
                if cells > usize::MAX as u128 {
                    return Err(owned("セル数が多すぎます"));
                }
                cells as usize
            }
        },
    };
    resize_cells(&mut out, n);
    Ok(out)
}

} // verus!
