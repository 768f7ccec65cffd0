use vstd::prelude::*;

use crate::file_id::{FileId, InferFailReason};

verus! {

// ─── per-file enter counters (a hashbrown map) ─────────────────────────────

/// Number of times each file (by its id) is currently entered.
#[verifier::external_body]
pub struct EnterCounts {
    map: hashbrown::HashMap<u32, u32>,
}

/// What an `EnterCounts` map holds.
pub uninterp spec fn enter_count_contents(m: EnterCounts) -> Map<u32, u32>;

/// `hashbrown::HashMap::new`: the new map is empty.
#[verifier::external_body]
fn counts_new() -> (m: EnterCounts)
    ensures
        enter_count_contents(m).dom() == Set::<u32>::empty(),
{
    EnterCounts { map: hashbrown::HashMap::new() }
}

/// `hashbrown::HashMap::get` (value copied out): the value stored under `k`, if any.
#[verifier::external_body]
fn counts_get(m: &EnterCounts, k: u32) -> (r: Option<u32>)
    ensures
        r == (if enter_count_contents(*m).dom().contains(k) {
            Some(enter_count_contents(*m)[k])
        } else {
            None
        }),
{
    m.map.get(&k).copied()
}

/// `hashbrown::HashMap::insert`: `k` now maps to `v`, other keys keep their values.
#[verifier::external_body]
fn counts_insert(m: &mut EnterCounts, k: u32, v: u32)
    ensures
        enter_count_contents(*final(m)) == enter_count_contents(*old(m)).insert(k, v),
{
    m.map.insert(k, v);
}

/// `hashbrown::HashMap::remove`: `k` is no longer mapped, other keys keep their values.
#[verifier::external_body]
fn counts_remove(m: &mut EnterCounts, k: u32)
    ensures
        enter_count_contents(*final(m)) == enter_count_contents(*old(m)).remove(k),
{
    m.map.remove(&k);
}

/// `hashbrown::HashMap::clear`: the map is empty afterwards.
#[verifier::external_body]
fn counts_clear(m: &mut EnterCounts)
    ensures
        enter_count_contents(*final(m)).dom() == Set::<u32>::empty(),
{
    m.map.clear();
}

// ─── the model ──────────────────────────────────────────────────────────────

/// How many times `f` occurs in `s`.
pub open spec fn occurrences(s: Seq<FileId>, f: FileId) -> nat
    decreases s.len(),
{
    if s.len() == 0 {
        0
    } else {
        occurrences(s.drop_last(), f) + (if s.last() == f { 1nat } else { 0nat })
    }
}

/// Index of the last occurrence of `f` in `s`, or -1 when there is none.
pub open spec fn last_index_of(s: Seq<FileId>, f: FileId) -> int
    decreases s.len(),
{
    if s.len() == 0 {
        -1
    } else if s.last() == f {
        s.len() - 1
    } else {
        last_index_of(s.drop_last(), f)
    }
}

/// The abstract state of an inference session: the configured limit and the
/// stack of files that are being inferred.
pub struct InferSessionView {
    pub reentry_limit: u32,
    pub stack: Seq<FileId>,
}

impl InferSessionView {
    /// `f` is already the file on top of the stack.
    pub open spec fn is_top(self, f: FileId) -> bool {
        self.stack.len() > 0 && self.stack.last() == f
    }

    /// Entering `f` is refused: the guard is on, `f` is not on top, and `f`
    /// already occurs `reentry_limit` times on the stack.
    pub open spec fn rejects(self, f: FileId) -> bool {
        &&& self.reentry_limit > 0
        &&& !self.is_top(f)
        &&& occurrences(self.stack, f) >= self.reentry_limit
    }

    /// Entering `f` pushes it on the stack.
    pub open spec fn pushes(self, f: FileId) -> bool {
        &&& self.reentry_limit > 0
        &&& !self.is_top(f)
        &&& occurrences(self.stack, f) < self.reentry_limit
    }

    /// The state after a successful or refused enter of `f`.
    pub open spec fn after_enter(self, f: FileId) -> InferSessionView {
        if self.pushes(f) {
            InferSessionView { reentry_limit: self.reentry_limit, stack: self.stack.push(f) }
        } else {
            self
        }
    }

    /// The state after leaving `f`: its last occurrence leaves the stack.
    pub open spec fn after_exit(self, f: FileId) -> InferSessionView {
        let i = last_index_of(self.stack, f);
        if i < 0 {
            self
        } else {
            InferSessionView { reentry_limit: self.reentry_limit, stack: self.stack.remove(i) }
        }
    }

    /// No file occurs more often than the limit allows.
    pub open spec fn within_limit(self) -> bool {
        forall|f: FileId| occurrences(self.stack, f) <= self.reentry_limit
    }
}

/// Guards inference against re-entering the same file without end.
pub struct InferSession {
    reentry_limit: u32,
    stack: Vec<FileId>,
    enter_count: EnterCounts,
}

/// What `InferSession::enter` hands out; give it back to `exit_scope` (or
/// the `exit_*` method of the holder it came from) to leave the file. A scope
/// has no destructor: one that is dropped without being handed back leaves its
/// file entered.
#[must_use]
#[derive(Debug)]
pub struct InferSessionScope {
    pub file_id: FileId,
    pub active: bool,
}

impl View for InferSession {
    type V = InferSessionView;

    closed spec fn view(&self) -> InferSessionView {
        InferSessionView { reentry_limit: self.reentry_limit, stack: self.stack@ }
    }
}

pub open spec fn count_in(m: Map<u32, u32>, k: u32) -> nat {
    if m.dom().contains(k) {
        m[k] as nat
    } else {
        0
    }
}

proof fn lemma_occurrences_push(s: Seq<FileId>, x: FileId, f: FileId)
    ensures
        occurrences(s.push(x), f) == occurrences(s, f) + (if x == f { 1nat } else { 0nat }),
{
    assert(s.push(x).drop_last() =~= s);
}

proof fn lemma_occurrences_remove(s: Seq<FileId>, i: int, f: FileId)
    requires
        0 <= i < s.len(),
    ensures
        occurrences(s, f) == occurrences(s.remove(i), f) + (if s[i] == f { 1nat } else { 0nat }),
    decreases s.len(),
{
    if i == s.len() - 1 {
        assert(s.remove(i) =~= s.drop_last());
    } else {
        lemma_occurrences_remove(s.drop_last(), i, f);
        assert(s.remove(i).drop_last() =~= s.drop_last().remove(i));
        assert(s.remove(i).last() == s.last());
    }
}

proof fn lemma_last_index_of(s: Seq<FileId>, f: FileId)
    ensures
        -1 <= last_index_of(s, f) < s.len(),
        last_index_of(s, f) >= 0 ==> s[last_index_of(s, f)] == f,
        last_index_of(s, f) < 0 ==> occurrences(s, f) == 0,
        last_index_of(s, f) < 0 ==> forall|j: int| 0 <= j < s.len() ==> s[j] != f,
        last_index_of(s, f) >= 0 ==> forall|j: int|
            last_index_of(s, f) < j < s.len() ==> s[j] != f,
    decreases s.len(),
{
    if s.len() > 0 && s.last() != f {
        lemma_last_index_of(s.drop_last(), f);
        let li = last_index_of(s, f);
        if li >= 0 {
            assert forall|j: int| li < j < s.len() implies s[j] != f by {
                if j < s.len() - 1 {
                    assert(s.drop_last()[j] == s[j]);
                }
            }
        } else {
            assert forall|j: int| 0 <= j < s.len() implies s[j] != f by {
                if j < s.len() - 1 {
                    assert(s.drop_last()[j] == s[j]);
                }
            }
        }
    }
}

proof fn lemma_occurrences_empty(f: FileId)
    ensures
        occurrences(Seq::<FileId>::empty(), f) == 0,
{
}

impl InferSession {
    /// The counters agree with the stack, no counter is zero, and no file is
    /// on the stack more often than the limit.
    pub closed spec fn wf(&self) -> bool {
        let m = enter_count_contents(self.enter_count);
        &&& forall|k: u32| #[trigger] m.dom().contains(k) ==> m[k] >= 1
        &&& forall|k: u32| count_in(m, k) == occurrences(self.stack@, FileId { id: k })
        &&& self@.within_limit()
    }

    /// The counter kept for `f`: how many times it is entered, when it is.
    pub closed spec fn enter_count_of(&self, f: FileId) -> Option<u32> {
        let m = enter_count_contents(self.enter_count);
        if m.dom().contains(f.id) {
            Some(m[f.id])
        } else {
            None
        }
    }

    /// A fresh session with the given reentry limit (`0` turns the guard off).
    pub fn new(reentry_limit: u32) -> (s: InferSession)
        ensures
            s.wf(),
            s@.within_limit(),
            s@.reentry_limit == reentry_limit,
            s@.stack == Seq::<FileId>::empty(),
    {
        let s = InferSession { reentry_limit, stack: Vec::new(), enter_count: counts_new() };
        proof {
            assert forall|f: FileId| occurrences(s@.stack, f) <= s@.reentry_limit by {
                lemma_occurrences_empty(f);
            }
            assert forall|k: u32|
                count_in(enter_count_contents(s.enter_count), k) == occurrences(
                    s.stack@,
                    FileId { id: k },
                ) by {
                lemma_occurrences_empty(FileId { id: k });
            }
        }
        s
    }

    /// Enter `file_id`. Refused with `RecursiveInfer` when the guard is on,
    /// `file_id` is not already on top, and it is already on the stack
    /// `reentry_limit` times. Otherwise the returned scope is active exactly
    /// when `file_id` was pushed.
    pub fn enter(&mut self, file_id: FileId) -> (r: Result<InferSessionScope, InferFailReason>)
        requires
            old(self).wf(),
        ensures
            final(self).wf(),
            final(self)@.within_limit(),
            final(self)@ == old(self)@.after_enter(file_id),
            r is Err <==> old(self)@.rejects(file_id),
            r matches Err(e) ==> e == InferFailReason::RecursiveInfer,
            r matches Ok(scope) ==> scope.file_id == file_id && scope.active == old(self)@.pushes(
                file_id,
            ),
    {
        if self.reentry_limit == 0 {
            return Ok(InferSessionScope { file_id, active: false });
        }
        let n = self.stack.len();
        if n > 0 && self.stack[n - 1] == file_id {
            return Ok(InferSessionScope { file_id, active: false });
        }
        let current_count = match counts_get(&self.enter_count, file_id.id) {
            Some(c) => c,
            None => 0,
        };
        proof {
            assert(count_in(enter_count_contents(self.enter_count), file_id.id) == occurrences(
                self.stack@,
                FileId { id: file_id.id },
            ));
        }
        if current_count >= self.reentry_limit {
            return Err(InferFailReason::RecursiveInfer);
        }
        let ghost old_stack = self.stack@;
        let ghost old_map = enter_count_contents(self.enter_count);
        self.stack.push(file_id);
        counts_insert(&mut self.enter_count, file_id.id, current_count + 1);
        proof {
            let m = enter_count_contents(self.enter_count);
            assert forall|k: u32| count_in(m, k) == occurrences(self.stack@, FileId { id: k }) by {
                lemma_occurrences_push(old_stack, file_id, FileId { id: k });
                assert(count_in(old_map, k) == occurrences(old_stack, FileId { id: k }));
            }
            assert forall|f: FileId| occurrences(self@.stack, f) <= self@.reentry_limit by {
                lemma_occurrences_push(old_stack, file_id, f);
                assert(old(self)@.within_limit());
                assert(occurrences(old(self)@.stack, f) <= self.reentry_limit);
                assert(count_in(old_map, f.id) == occurrences(old_stack, FileId { id: f.id }));
            }
            assert(forall|k: u32| #[trigger] m.dom().contains(k) ==> m[k] >= 1);
        }
        Ok(InferSessionScope { file_id, active: true })
    }

    /// The limit the session was made with.
    pub fn reentry_limit(&self) -> (r: u32)
        ensures
            r == self@.reentry_limit,
    {
        self.reentry_limit
    }

    /// Forget every entered file.
    pub fn clear(&mut self)
        requires
            old(self).wf(),
        ensures
            final(self).wf(),
            final(self)@.within_limit(),
            final(self)@.reentry_limit == old(self)@.reentry_limit,
            final(self)@.stack == Seq::<FileId>::empty(),
    {
        self.stack.clear();
        counts_clear(&mut self.enter_count);
        proof {
            assert forall|f: FileId| occurrences(self@.stack, f) <= self@.reentry_limit by {
                lemma_occurrences_empty(f);
            }
            assert forall|k: u32|
                count_in(enter_count_contents(self.enter_count), k) == occurrences(
                    self.stack@,
                    FileId { id: k },
                ) by {
                lemma_occurrences_empty(FileId { id: k });
            }
        }
    }

    /// Leave `file_id`: its last occurrence leaves the stack and its counter
    /// goes down by one (the counter is dropped when it reaches zero).
    fn exit(&mut self, file_id: FileId)
        requires
            old(self).wf(),
        ensures
            final(self).wf(),
            final(self)@ == old(self)@.after_exit(file_id),
    {
        let ghost old_stack = self.stack@;
        let ghost old_map = enter_count_contents(self.enter_count);
        proof {
            lemma_last_index_of(old_stack, file_id);
        }
        let n = self.stack.len();
        if n > 0 && self.stack[n - 1] == file_id {
            self.stack.pop();
            proof {
                assert(old_stack.remove(n - 1) =~= old_stack.drop_last());
                assert(last_index_of(old_stack, file_id) == n - 1);
                assert(self.stack@ =~= old(self)@.after_exit(file_id).stack);
            }
        } else {
            let mut i = n;
            let mut found = false;
            while i > 0
                invariant_except_break
                    i <= n,
                    !found,
                    n == self.stack.len(),
                    self.stack@ == old_stack,
                    forall|j: int| i <= j < n ==> old_stack[j] != file_id,
                ensures
                    self.stack@ == old_stack,
                    found ==> 0 < i <= n && old_stack[i - 1] == file_id && forall|j: int|
                        i <= j < n ==> old_stack[j] != file_id,
                    !found ==> forall|j: int| 0 <= j < n ==> old_stack[j] != file_id,
                decreases i,
            {
                if self.stack[i - 1] == file_id {
                    found = true;
                    break;
                }
                i = i - 1;
            }
            if found {
                let idx = i - 1;
                self.stack.remove(idx);
                proof {
                    let li = last_index_of(old_stack, file_id);
                    if li != idx as int {
                        if li < idx as int {
                            assert(old_stack[idx as int] == file_id);
                        } else {
                            assert(old_stack[li] == file_id);
                        }
                    }
                    assert(li == idx as int);
                    assert(self.stack@ =~= old(self)@.after_exit(file_id).stack);
                }
            } else {
                proof {
                    let li = last_index_of(old_stack, file_id);
                    if li >= 0 {
                        assert(old_stack[li] == file_id);
                    }
                    assert(li < 0);
                    assert(self.stack@ =~= old(self)@.after_exit(file_id).stack);
                }
            }
        }
        let ghost mid_stack = self.stack@;
        proof {
            let li = last_index_of(old_stack, file_id);
            assert forall|f: FileId|
                occurrences(old_stack, f) == occurrences(mid_stack, f) + (if li >= 0 && f
                    == file_id { 1nat } else { 0nat }) by {
                if li >= 0 {
                    lemma_occurrences_remove(old_stack, li, f);
                }
            }
        }
        match counts_get(&self.enter_count, file_id.id) {
            Some(count) => {
                if count <= 1 {
                    counts_remove(&mut self.enter_count, file_id.id);
                } else {
                    counts_insert(&mut self.enter_count, file_id.id, count - 1);
                }
            },
            None => {},
        }
        proof {
            let li = last_index_of(old_stack, file_id);
            let m = enter_count_contents(self.enter_count);
            assert(count_in(old_map, file_id.id) == occurrences(
                old_stack,
                FileId { id: file_id.id },
            ));
            assert forall|k: u32| count_in(m, k) == occurrences(mid_stack, FileId { id: k }) by {
                assert(count_in(old_map, k) == occurrences(old_stack, FileId { id: k }));
                if k == file_id.id {
                    assert(FileId { id: k } == file_id);
                }
            }
            assert forall|f: FileId| occurrences(self@.stack, f) <= self@.reentry_limit by {
                assert(old(self)@.within_limit());
                assert(occurrences(old(self)@.stack, f) <= self.reentry_limit);
            }
            assert(forall|k: u32| #[trigger] m.dom().contains(k) ==> m[k] >= 1);
        }
    }

    /// Hand back a scope obtained from `enter`: an active scope leaves its
    /// file, an inactive one changes nothing.
    pub fn exit_scope(&mut self, scope: InferSessionScope)
        requires
            old(self).wf(),
        ensures
            final(self).wf(),
            final(self)@.within_limit(),
            final(self)@ == (if scope.active {
                old(self)@.after_exit(scope.file_id)
            } else {
                old(self)@
            }),
    {
        if scope.active {
            self.exit(scope.file_id);
        }
    }
}

/// Leaving a file right after a successful enter of it gives back the state
/// the session had before the enter.
pub proof fn lemma_enter_then_exit_restores(s: InferSessionView, f: FileId)
    requires
        !s.rejects(f),
    ensures
        s.pushes(f) ==> s.after_enter(f).after_exit(f) == s,
        !s.pushes(f) ==> s.after_enter(f) == s,
{
    if s.pushes(f) {
        let t = s.after_enter(f);
        assert(t.stack.last() == f);
        assert(last_index_of(t.stack, f) == t.stack.len() - 1);
        assert(t.stack.remove(t.stack.len() - 1) =~= s.stack);
    }
}

/// With the guard off (`reentry_limit == 0`) every enter succeeds and leaves
/// the stack alone.
pub proof fn lemma_zero_limit_never_rejects(s: InferSessionView, f: FileId)
    requires
        s.reentry_limit == 0,
    ensures
        !s.rejects(f),
        s.after_enter(f) == s,
{
}

/// Entering and leaving keep every file within the limit.
pub proof fn lemma_limit_is_kept(s: InferSessionView, f: FileId, g: FileId)
    requires
        s.within_limit(),
    ensures
        s.after_enter(f).within_limit(),
        s.after_exit(g).within_limit(),
{
    assert forall|h: FileId| occurrences(s.after_enter(f).stack, h) <= s.reentry_limit by {
        if s.pushes(f) {
            lemma_occurrences_push(s.stack, f, h);
            assert(occurrences(s.stack, f) < s.reentry_limit);
            assert(occurrences(s.stack, h) <= s.reentry_limit);
        }
    }
    lemma_last_index_of(s.stack, g);
    assert forall|h: FileId| occurrences(s.after_exit(g).stack, h) <= s.reentry_limit by {
        let i = last_index_of(s.stack, g);
        assert(occurrences(s.stack, h) <= s.reentry_limit);
        if i >= 0 {
            lemma_occurrences_remove(s.stack, i, h);
        }
    }
}

/// Entering the file that is already on top is never refused and leaves the
/// stack (and so every count) as it was.
pub proof fn lemma_top_reentry_is_free(s: InferSessionView, f: FileId)
    requires
        s.is_top(f),
    ensures
        !s.rejects(f),
        !s.pushes(f),
        s.after_enter(f) == s,
{
}

/// In every state a session reaches, the counter of each file is the number
/// of times the file is on the stack (no counter when it is not there), no
/// file is there more often than the limit, and with the guard off (`0`) the
/// stack stays empty.
pub proof fn lemma_session_counts(s: &InferSession)
    requires
        s.wf(),
    ensures
        forall|f: FileId|
            #[trigger] s.enter_count_of(f) == (if occurrences(s@.stack, f) > 0 {
                Some(occurrences(s@.stack, f) as u32)
            } else {
                None
            }),
        s@.within_limit(),
        s@.reentry_limit == 0 ==> s@.stack.len() == 0,
{
    let m = enter_count_contents(s.enter_count);
    assert forall|f: FileId|
        #[trigger] s.enter_count_of(f) == (if occurrences(s@.stack, f) > 0 {
            Some(occurrences(s@.stack, f) as u32)
        } else {
            None
        }) by {
        assert(f == FileId { id: f.id });
        assert(count_in(m, f.id) == occurrences(s.stack@, FileId { id: f.id }));
    }
    if s@.reentry_limit == 0 && s@.stack.len() > 0 {
        let st = s@.stack;
        assert(occurrences(st, st.last()) >= 1);
        assert(occurrences(st, st.last()) <= s@.reentry_limit);
    }
}

} // verus!
