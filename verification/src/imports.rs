//! The bookkeeping of include directives while a file and the files it
//! includes are evaluated. Directives may only open a file, before its
//! first other block; a file already included anywhere (the file being
//! evaluated and the files that include it among them) is skipped, so a
//! circular include is a skip, never an error.
//!
//! Reading, resolving and parsing the files is the caller's part; paths
//! are handed over in their canonical form.

use vstd::prelude::*;

use crate::error::EngineError;
use crate::registry::texts;
use crate::text::{owned, same_text};

verus! {

/// The files included so far, and the chain of files being evaluated, the
/// outermost first.
pub struct ImportTrail {
    included: Vec<String>,
    stack: Vec<String>,
}

impl ImportTrail {
    /// The canonical paths of the files included so far.
    pub closed spec fn included_view(&self) -> Set<Seq<char>> {
        texts(self.included@).to_set()
    }

    /// The canonical paths of the files being evaluated, the outermost
    /// first.
    pub closed spec fn stack_view(&self) -> Seq<Seq<char>> {
        texts(self.stack@)
    }

    /// Every file being evaluated has been included, and none twice.
    pub open spec fn wf(&self) -> bool {
        &&& forall|i: int| 0 <= i < self.stack_view().len() ==> self.included_view().contains(#[trigger] self.stack_view()[i])
        &&& self.stack_view().no_duplicates()
    }

    /// The trail of evaluating the file `root`.
    pub fn new(root: &str) -> (r: ImportTrail)
        ensures
            r.wf(),
            r.included_view() == set![root@],
            r.stack_view() == seq![root@],
    {
        let r = ImportTrail { included: vec![owned(root)], stack: vec![owned(root)] };
        proof {
            assert(texts(r.stack@) =~= seq![root@]);
            assert(texts(r.included@) =~= seq![root@]);
            assert(seq![root@].to_set() =~= set![root@]) by {
                assert(seq![root@][0] == root@);
            }
        }
        r
    }

    /// Whether `path` has been included.
    fn has_included(&self, path: &str) -> (r: bool)
        ensures
            r == self.included_view().contains(path@),
    {
        let mut i: usize = 0;
        while i < self.included.len()
            invariant
                i <= self.included@.len(),
                forall|k: int| 0 <= k < i ==> self.included@[k]@ != path@,
            decreases self.included@.len() - i,
        {
            if same_text(&self.included[i], path) {
                proof {
                    assert(texts(self.included@)[i as int] == path@);
                }
                return true;
            }
            i += 1;
        }
        proof {
            if texts(self.included@).contains(path@) {
                let k = choose|k: int| 0 <= k < texts(self.included@).len() && texts(self.included@)[k] == path@;
                assert(self.included@[k]@ == path@);
            }
        }
        false
    }

    /// An include directive that names `written` and resolves to
    /// `canonical`, in a file where `after_blocks` other blocks came
    /// before it. After other blocks it is refused; a file already
    /// included is skipped (`Ok(false)`); otherwise the file is entered
    /// (`Ok(true)`) and must be left with `leave` once evaluated.
    pub fn enter(&mut self, after_blocks: bool, written: &str, canonical: &str) -> (r: Result<bool, EngineError>)
        requires
            old(self).wf(),
        ensures
            final(self).wf(),
            if after_blocks {
                &&& r matches Err(EngineError::IncludeNotAtTop(p)) && p@ == written@
                &&& final(self).included_view() == old(self).included_view() && final(self).stack_view() == old(self).stack_view()
            } else if old(self).included_view().contains(canonical@) {
                &&& r == Ok::<bool, EngineError>(false)
                &&& final(self).included_view() == old(self).included_view() && final(self).stack_view() == old(self).stack_view()
            } else {
                &&& r == Ok::<bool, EngineError>(true)
                &&& final(self).included_view() == old(self).included_view().insert(canonical@)
                &&& final(self).stack_view() == old(self).stack_view().push(canonical@)
            },
    {
        if after_blocks {
            return Err(EngineError::IncludeNotAtTop(owned(written)));
        }
        if self.has_included(canonical) {
            return Ok(false);
        }
        let ghost inc0 = texts(self.included@);
        let ghost st0 = texts(self.stack@);
        self.included.push(owned(canonical));
        self.stack.push(owned(canonical));
        proof {
            assert(texts(self.included@) =~= inc0.push(canonical@));
            assert(texts(self.stack@) =~= st0.push(canonical@));
            inc0.lemma_push_to_set_commute(canonical@);
            assert forall|i: int| 0 <= i < texts(self.stack@).len() implies self.included_view().contains(
                #[trigger] texts(self.stack@)[i],
            ) by {
                if i < st0.len() {
                    assert(texts(self.stack@)[i] == st0[i]);
                    assert(inc0.to_set().contains(st0[i]));
                }
            }
            assert(!st0.contains(canonical@)) by {
                if st0.contains(canonical@) {
                    let k = choose|k: int| 0 <= k < st0.len() && st0[k] == canonical@;
                    assert(inc0.to_set().contains(st0[k]));
                }
            }
            assert(texts(self.stack@).no_duplicates()) by {
                assert forall|a: int, b: int| 0 <= a < b < texts(self.stack@).len() implies texts(self.stack@)[a] != texts(
                    self.stack@,
                )[b] by {
                    if b == st0.len() {
                        assert(st0[a] == texts(self.stack@)[a]);
                    } else {
                        assert(st0[a] == texts(self.stack@)[a] && st0[b] == texts(self.stack@)[b]);
                    }
                }
            }
        }
        Ok(true)
    }

    /// The file entered last has been evaluated.
    pub fn leave(&mut self)
        requires
            old(self).wf(),
            old(self).stack_view().len() > 0,
        ensures
            final(self).wf(),
            final(self).included_view() == old(self).included_view(),
            final(self).stack_view() == old(self).stack_view().drop_last(),
    {
        let ghost st0 = texts(self.stack@);
        self.stack.pop();
        proof {
            assert(texts(self.stack@) =~= st0.drop_last());
            assert forall|i: int| 0 <= i < texts(self.stack@).len() implies self.included_view().contains(
                #[trigger] texts(self.stack@)[i],
            ) by {
                assert(texts(self.stack@)[i] == st0[i]);
            }
            assert(texts(self.stack@).no_duplicates()) by {
                assert forall|a: int, b: int| 0 <= a < b < texts(self.stack@).len() implies texts(self.stack@)[a] != texts(
                    self.stack@,
                )[b] by {
                    assert(st0[a] == texts(self.stack@)[a] && st0[b] == texts(self.stack@)[b]);
                }
            }
        }
    }
}

/// An include of a file that is being evaluated (a circular include) is
/// skipped as a file already included, never refused.
pub proof fn law_circular_include_is_skipped(trail: ImportTrail, canonical: Seq<char>)
    requires
        trail.wf(),
        trail.stack_view().contains(canonical),
    ensures
        trail.included_view().contains(canonical),
{
    let k = choose|k: int| 0 <= k < trail.stack_view().len() && trail.stack_view()[k] == canonical;
    assert(trail.included_view().contains(trail.stack_view()[k]));
}

} // verus!
