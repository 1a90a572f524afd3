//! Evaluating a file that includes others: its include directives, which
//! stand at its top, each give what evaluating the included file gave (or
//! a skip, for a file already included), followed by a record of the
//! include; then its other blocks are evaluated in order. An include after
//! another block is refused. Reading and parsing the files is the
//! caller's part, which hands over what each include came to.
//!
//! Also here: evaluating a parsed source block by block, in full or as a
//! preload that leaves playback alone, and filling an empty registry from
//! a source and the sources it includes.

use vstd::prelude::*;

use crate::ast::Block;
use crate::error::EngineError;
use crate::evaluation::EvalResult;
use crate::evaluator::{block_outcome, EvalModel, Evaluator};

verus! {

/// What an include directive came to.
pub enum IncludeOutcome {
    /// The file had been included already.
    Skipped,
    /// The file was evaluated, with these results.
    Processed(Vec<EvalResult>),
    /// Resolving, reading, parsing or evaluating the file failed.
    Failed(EngineError),
}

/// The results an include directive of `path` contributes: the included
/// file's results followed by a record of the include, or a skip.
pub open spec fn include_results(path: String, o: IncludeOutcome) -> Result<Seq<EvalResult>, EngineError> {
    match o {
        IncludeOutcome::Skipped => Ok(seq![EvalResult::IncludeSkipped { path }]),
        IncludeOutcome::Processed(sub) => Ok(
            sub@.push(EvalResult::IncludeProcessed { path, results_count: sub@.len() as usize }),
        ),
        IncludeOutcome::Failed(e) => Err(e),
    }
}

/// `head` before the results of `rest`.
pub open spec fn prepend(head: Seq<EvalResult>, rest: Result<Seq<EvalResult>, EngineError>) -> Result<Seq<EvalResult>, EngineError> {
    match rest {
        Ok(s) => Ok(head + s),
        Err(e) => Err(e),
    }
}

/// The results as a sequence.
pub open spec fn results_view(r: Result<Vec<EvalResult>, EngineError>) -> Result<Seq<EvalResult>, EngineError> {
    match r {
        Ok(v) => Ok(v@),
        Err(e) => Err(e),
    }
}

/// A block other than an include ends the run of include directives.
pub open spec fn ends_includes(b: Block) -> bool {
    !(b is Include)
}

/// Evaluating `blocks` from evaluator `m0`, with `incs` what the include
/// directives came to, in order, and `ended` whether another block came
/// before, leaves `m1` and gives `r`. An include after another block is
/// refused; an include with no outcome left is evaluated as a block; a
/// failed include or block ends the walk with its error.
pub open spec fn folded(
    m0: EvalModel,
    blocks: Seq<Block>,
    incs: Seq<IncludeOutcome>,
    ended: bool,
    m1: EvalModel,
    r: Result<Seq<EvalResult>, EngineError>,
) -> bool
    decreases blocks.len(),
{
    if blocks.len() == 0 {
        m1 == m0 && r == Ok::<Seq<EvalResult>, EngineError>(Seq::empty())
    } else {
        let b = blocks[0];
        if b is Include && ended {
            m1 == m0 && r == Err::<Seq<EvalResult>, EngineError>(EngineError::IncludeNotAtTop(b->Include_0.path))
        } else if b is Include && incs.len() > 0 {
            match include_results(b->Include_0.path, incs[0]) {
                Err(e) => m1 == m0 && r == Err::<Seq<EvalResult>, EngineError>(e),
                Ok(head) => exists|rest: Result<Seq<EvalResult>, EngineError>|
                    folded(m0, blocks.drop_first(), incs.drop_first(), false, m1, rest) && r == #[trigger] prepend(head, rest),
            }
        } else {
            exists|mb: EvalModel, rb: Result<EvalResult, EngineError>|
                #[trigger] block_outcome(m0, b, rb, mb) && match rb {
                    Err(e) => m1 == mb && r == Err::<Seq<EvalResult>, EngineError>(e),
                    Ok(x) => exists|rest: Result<Seq<EvalResult>, EngineError>|
                        folded(mb, blocks.drop_first(), incs, ends_includes(b), m1, rest) && r == #[trigger] prepend(
                            seq![x],
                            rest,
                        ),
                }
        }
    }
}

/// Evaluates a file's blocks in order, with `incs` what its include
/// directives came to: see `folded`.
pub fn fold_file(ev: &mut Evaluator, blocks: Vec<Block>, incs: Vec<IncludeOutcome>) -> (r: Result<Vec<EvalResult>, EngineError>)
    requires
        old(ev).wf(),
    ensures
        final(ev).wf(),
        folded(old(ev).model(), blocks@, incs@, false, final(ev).model(), results_view(r)),
{
    fold_from(ev, blocks, incs, false)
}

/// The blocks of a file from some point on, with `ended` whether another
/// block came before: see `folded`.
fn fold_from(ev: &mut Evaluator, blocks: Vec<Block>, incs: Vec<IncludeOutcome>, ended: bool) -> (r: Result<
    Vec<EvalResult>,
    EngineError,
>)
    requires
        old(ev).wf(),
    ensures
        final(ev).wf(),
        folded(old(ev).model(), blocks@, incs@, ended, final(ev).model(), results_view(r)),
    decreases blocks@.len(),
{
    let ghost m0 = ev.model();
    let ghost bs = blocks@;
    let ghost is = incs@;
    if blocks.len() == 0 {
        return Ok(Vec::new());
    }
    let mut blocks = blocks;
    let mut incs = incs;
    let b = blocks.remove(0);
    assert(blocks@ == bs.drop_first());
    let is_include = match &b {
        Block::Include(_) => true,
        _ => false,
    };
    assert(b == bs[0] && is_include == (bs[0] is Include) && incs@ == is);
    if is_include && ended {
        match b {
            Block::Include(inc) => return Err(EngineError::IncludeNotAtTop(inc.path)),
            _ => return Ok(Vec::new()),
        }
    }
    if is_include && incs.len() > 0 {
        assert(bs[0] is Include && !ended && is.len() > 0);
        let o = incs.remove(0);
        assert(incs@ == is.drop_first());
        assert(o == is[0]);
        assert(b == bs[0]);
        let path = match b {
            Block::Include(inc) => inc.path,
            _ => String::new(),
        };
        assert(path == bs[0]->Include_0.path);
        let mut out: Vec<EvalResult> = match o {
            IncludeOutcome::Skipped => {
                let v = vec![EvalResult::IncludeSkipped { path }];
                assert(v@ == seq![EvalResult::IncludeSkipped { path: bs[0]->Include_0.path }]);
                v
            },
            IncludeOutcome::Processed(sub) => {
                let ghost s0 = sub@;
                let mut sub = sub;
                let count = sub.len();
                sub.push(EvalResult::IncludeProcessed { path, results_count: count });
                assert(sub@ == s0.push(EvalResult::IncludeProcessed { path: bs[0]->Include_0.path, results_count: s0.len() as usize }));
                sub
            },
            IncludeOutcome::Failed(e) => return Err(e),
        };
        let ghost head = out@;
        assert(include_results(bs[0]->Include_0.path, is[0]) == Ok::<Seq<EvalResult>, EngineError>(head));
        let rest = fold_from(ev, blocks, incs, false);
        let ghost rv = results_view(rest);
        let ghost m1 = ev.model();
        proof {
            assert(folded(m0, bs.drop_first(), is.drop_first(), false, m1, rv));
        }
        match rest {
            Ok(mut more) => {
                let ghost tail = more@;
                out.append(&mut more);
                assert(out@ == head + tail);
                let ghost fin = results_view(Ok::<Vec<EvalResult>, EngineError>(out));
                assert(fin == prepend(head, rv));
                assert(folded(m0, bs, is, ended, m1, fin));
                Ok(out)
            },
            Err(e) => {
                assert(results_view(Err::<Vec<EvalResult>, EngineError>(e)) == prepend(head, results_view(rest)));
                assert(folded(m0, bs, is, ended, ev.model(), results_view(Err::<Vec<EvalResult>, EngineError>(e))));
                Err(e)
            },
        }
    } else {
        let rb = ev.eval_block(b);
        let ghost mb = ev.model();
        proof {
            assert(block_outcome(m0, bs[0], rb, mb));
        }
        match rb {
            Ok(x) => {
                let rest = fold_from(ev, blocks, incs, !is_include);
                let ghost rv = results_view(rest);
                let ghost m1 = ev.model();
                proof {
                    assert(folded(mb, bs.drop_first(), is, ends_includes(bs[0]), m1, rv));
                }
                match rest {
                    Ok(more) => {
                        let ghost tail = more@;
                        let ghost gx = x;
                        let mut out = vec![x];
                        let mut more = more;
                        out.append(&mut more);
                        assert(out@ == seq![gx] + tail);
                        let ghost fin = results_view(Ok::<Vec<EvalResult>, EngineError>(out));
                        assert(fin == prepend(seq![gx], rv));
                        assert(folded(m0, bs, is, ended, m1, fin));
                        Ok(out)
                    },
                    Err(e) => {
                        assert(results_view(Err::<Vec<EvalResult>, EngineError>(e)) == prepend(seq![x], rv));
                        Err(e)
                    },
                }
            },
            Err(e) => Err(e),
        }
    }
}


/// Evaluating `blocks` in order from evaluator `m0` leaves `m1` and gives
/// `r`: the results in order, or the first error. A preload (`preload`)
/// skips `play` and `stop`.
pub open spec fn evaluated(m0: EvalModel, blocks: Seq<Block>, preload: bool, m1: EvalModel, r: Result<Seq<EvalResult>, EngineError>) -> bool
    decreases blocks.len(),
{
    if blocks.len() == 0 {
        m1 == m0 && r == Ok::<Seq<EvalResult>, EngineError>(Seq::empty())
    } else if preload && (blocks[0] is Play || blocks[0] is Stop) {
        evaluated(m0, blocks.drop_first(), preload, m1, r)
    } else {
        exists|mb: EvalModel, rb: Result<EvalResult, EngineError>|
            #[trigger] block_outcome(m0, blocks[0], rb, mb) && match rb {
                Err(e) => m1 == mb && r == Err::<Seq<EvalResult>, EngineError>(e),
                Ok(x) => exists|rest: Result<Seq<EvalResult>, EngineError>|
                    evaluated(mb, blocks.drop_first(), preload, m1, rest) && r == #[trigger] prepend(seq![x], rest),
            }
    }
}

/// Preloading the sources `files` one after another from `m0` leaves `m1`;
/// `r` tells whether every one was evaluated without error.
pub open spec fn preload_files(m0: EvalModel, files: Seq<Vec<Block>>, m1: EvalModel, r: bool) -> bool
    decreases files.len(),
{
    if files.len() == 0 {
        m1 == m0 && r
    } else {
        exists|mb: EvalModel, rb: Result<Seq<EvalResult>, EngineError>|
            #[trigger] evaluated(m0, files[0]@, true, mb, rb) && match rb {
                Err(_) => m1 == mb && !r,
                Ok(_) => preload_files(mb, files.drop_first(), m1, r),
            }
    }
}

impl Evaluator {
    /// Evaluates the blocks of a parsed source in order: see `evaluated`.
    pub fn eval_blocks(&mut self, blocks: Vec<Block>) -> (r: Result<Vec<EvalResult>, EngineError>)
        requires
            old(self).wf(),
        ensures
            final(self).wf(),
            evaluated(old(self).model(), blocks@, false, final(self).model(), results_view(r)),
    {
        eval_from(self, blocks, false)
    }

    /// Evaluates the blocks of a parsed source in order, skipping `play`
    /// and `stop`: see `evaluated`.
    pub fn eval_blocks_preload(&mut self, blocks: Vec<Block>) -> (r: Result<Vec<EvalResult>, EngineError>)
        requires
            old(self).wf(),
        ensures
            final(self).wf(),
            evaluated(old(self).model(), blocks@, true, final(self).model(), results_view(r)),
    {
        eval_from(self, blocks, true)
    }

    /// Fills an empty registry from a parsed source and the sources it
    /// includes, preloading them in order; a registry that holds anything
    /// is left alone (`false`). Stops at the first source with an error
    /// (`false`); `true` when all were preloaded.
    pub fn preload_from_blocks(&mut self, main: Vec<Block>, additional: Vec<Vec<Block>>) -> (r: bool)
        requires
            old(self).wf(),
        ensures
            final(self).wf(),
            if !old(self).model().registry.is_empty() {
                final(self).model() == old(self).model() && !r
            } else {
                preload_files(old(self).model(), seq![main].add(additional@), final(self).model(), r)
            },
    {
        if !self.registry().is_empty() {
            return false;
        }
        let ghost want = seq![main].add(additional@);
        let mut files: Vec<Vec<Block>> = vec![main];
        let mut more = additional;
        files.append(&mut more);
        assert(files@ =~= want);
        preload_all(self, files)
    }
}

/// Preloads each source in turn: see `preload_files`.
fn preload_all(ev: &mut Evaluator, files: Vec<Vec<Block>>) -> (r: bool)
    requires
        old(ev).wf(),
    ensures
        final(ev).wf(),
        preload_files(old(ev).model(), files@, final(ev).model(), r),
    decreases files@.len(),
{
    let ghost m0 = ev.model();
    let ghost fs = files@;
    if files.len() == 0 {
        return true;
    }
    let mut files = files;
    let first = files.remove(0);
    assert(files@ == fs.drop_first());
    let ghost blocks = first@;
    let rb = eval_from(ev, first, true);
    let ghost mb = ev.model();
    let ghost rv = results_view(rb);
    assert(evaluated(m0, fs[0]@, true, mb, rv));
    match rb {
        Err(_) => false,
        Ok(_) => {
            let r = preload_all(ev, files);
            assert(preload_files(mb, fs.drop_first(), ev.model(), r));
            r
        },
    }
}

/// The blocks from some point on: see `evaluated`.
fn eval_from(ev: &mut Evaluator, blocks: Vec<Block>, preload: bool) -> (r: Result<Vec<EvalResult>, EngineError>)
    requires
        old(ev).wf(),
    ensures
        final(ev).wf(),
        evaluated(old(ev).model(), blocks@, preload, final(ev).model(), results_view(r)),
    decreases blocks@.len(),
{
    let ghost m0 = ev.model();
    let ghost bs = blocks@;
    if blocks.len() == 0 {
        return Ok(Vec::new());
    }
    let mut blocks = blocks;
    let b = blocks.remove(0);
    assert(blocks@ == bs.drop_first() && b == bs[0]);
    let skip = match &b {
        Block::Play(_) => preload,
        Block::Stop(_) => preload,
        _ => false,
    };
    if skip {
        return eval_from(ev, blocks, preload);
    }
    let rb = ev.eval_block(b);
    let ghost mb = ev.model();
    assert(block_outcome(m0, bs[0], rb, mb));
    match rb {
        Ok(x) => {
            let rest = eval_from(ev, blocks, preload);
            let ghost rv = results_view(rest);
            let ghost m1 = ev.model();
            assert(evaluated(mb, bs.drop_first(), preload, m1, rv));
            match rest {
                Ok(more) => {
                    let ghost tail = more@;
                    let ghost gx = x;
                    let mut out = vec![x];
                    let mut more = more;
                    out.append(&mut more);
                    assert(out@ == seq![gx] + tail);
                    let ghost fin = results_view(Ok::<Vec<EvalResult>, EngineError>(out));
                    assert(fin == prepend(seq![gx], rv));
                    assert(evaluated(m0, bs, preload, m1, fin));
                    Ok(out)
                },
                Err(e) => {
                    assert(results_view(Err::<Vec<EvalResult>, EngineError>(e)) == prepend(seq![x], rv));
                    Err(e)
                },
            }
        },
        Err(e) => Err(e),
    }
}

} // verus!
