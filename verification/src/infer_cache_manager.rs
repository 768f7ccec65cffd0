use vstd::prelude::*;

use crate::cache::{CacheOptions, InferCacheView, LuaAnalysisPhase, LuaInferCache};
use crate::file_id::{FileId, InferFailReason};
use crate::infer_session::{InferSession, InferSessionScope, InferSessionView};

verus! {

// ─── the per-file caches (a hashbrown map keyed by file id) ────────────────

/// The inference caches of the files, keyed by the file's id.
#[verifier::external_body]
pub struct InferCacheMap {
    map: hashbrown::HashMap<u32, LuaInferCache>,
}

/// What an `InferCacheMap` holds: each stored cache by its view.
pub uninterp spec fn infer_cache_contents(m: InferCacheMap) -> Map<u32, InferCacheView>;

/// The view of the cache a manager creates for `file_id`.
pub open spec fn is_new_cache_for(v: InferCacheView, file_id: FileId) -> bool {
    &&& v.file_id == file_id
    &&& v.config == (CacheOptions { analysis_phase: LuaAnalysisPhase::Ordered })
    &&& v.is_fresh()
}

/// The cache a manager creates for a file it has none for yet.
pub fn fresh_infer_cache(file_id: FileId) -> (r: LuaInferCache)
    ensures
        is_new_cache_for(r@, file_id),
{
    LuaInferCache::new(file_id, CacheOptions { analysis_phase: LuaAnalysisPhase::Ordered })
}

/// The view of a cache switched to the forced phase.
pub open spec fn forced(v: InferCacheView) -> InferCacheView {
    InferCacheView { config: CacheOptions { analysis_phase: LuaAnalysisPhase::Force }, ..v }
}

/// Switch one cache to the forced phase.
pub fn force_phase(c: &mut LuaInferCache)
    ensures
        final(c)@ == forced(old(c)@),
{
    c.set_phase(LuaAnalysisPhase::Force);
}

/// The caches after `clear` emptied them.
pub open spec fn cleared(before: InferCacheView, after: InferCacheView) -> bool {
    &&& after.caches_empty()
    &&& after.file_id == before.file_id
    &&& after.config == before.config
    &&& after.narrow_stop == before.narrow_stop
}

/// Empty the inference caches of one cache.
pub fn clear_cache(c: &mut LuaInferCache)
    ensures
        cleared(old(c)@, final(c)@),
{
    c.clear();
}

/// `hashbrown::HashMap::new`: the new map is empty.
#[verifier::external_body]
fn infer_caches_new() -> (m: InferCacheMap)
    ensures
        infer_cache_contents(m).dom() == Set::<u32>::empty(),
{
    InferCacheMap { map: hashbrown::HashMap::new() }
}

/// `hashbrown::HashMap::entry(..).or_insert_with(..)`: the cache stored under
/// the file's id, after storing `fresh_infer_cache(file_id)` there if there
/// was none. Whatever the caller leaves in the returned cache is what the map
/// holds under that id afterwards.
#[verifier::external_body]
fn infer_caches_entry(m: &mut InferCacheMap, file_id: FileId) -> (r: &mut LuaInferCache)
    ensures
        infer_cache_contents(*old(m)).contains_key(file_id.id) ==> r@ == infer_cache_contents(
            *old(m),
        )[file_id.id],
        !infer_cache_contents(*old(m)).contains_key(file_id.id) ==> is_new_cache_for(r@, file_id),
        infer_cache_contents(*final(m)) == infer_cache_contents(*old(m)).insert(
            file_id.id,
            final(r)@,
        ),
{
    m.map.entry(file_id.id).or_insert_with(|| fresh_infer_cache(file_id))
}

/// `hashbrown::HashMap::values_mut`, each cache passed to `force_phase`: the
/// same files, each cache as `force_phase` leaves it.
#[verifier::external_body]
fn infer_caches_force(m: &mut InferCacheMap)
    ensures
        infer_cache_contents(*final(m)).dom() == infer_cache_contents(*old(m)).dom(),
        forall|k: u32| #[trigger]
            infer_cache_contents(*final(m)).contains_key(k) ==> infer_cache_contents(*final(m))[k]
                == forced(infer_cache_contents(*old(m))[k]),
{
    m.map.values_mut().for_each(|c| force_phase(c));
}

/// `hashbrown::HashMap::values_mut`, each cache passed to `clear_cache`: the
/// same files, each cache as `clear_cache` leaves it.
#[verifier::external_body]
fn infer_caches_clear_each(m: &mut InferCacheMap)
    ensures
        infer_cache_contents(*final(m)).dom() == infer_cache_contents(*old(m)).dom(),
        forall|k: u32| #[trigger]
            infer_cache_contents(*final(m)).contains_key(k) ==> cleared(
                infer_cache_contents(*old(m))[k],
                infer_cache_contents(*final(m))[k],
            ),
{
    m.map.values_mut().for_each(|c| clear_cache(c));
}

// ─── the manager ────────────────────────────────────────────────────────────

/// The inference caches of all files, with the one session that guards
/// inference across files. The caches share that session: every file entry
/// made while inferring with a cache goes through `enter_file`, or through the
/// session handed out with the cache by `get_infer_cache_and_session`.
pub struct InferCacheManager {
    infer_map: InferCacheMap,
    infer_session: InferSession,
}

impl InferCacheManager {
    /// The caches, by file id.
    pub closed spec fn caches(&self) -> Map<u32, InferCacheView> {
        infer_cache_contents(self.infer_map)
    }

    /// The shared session.
    pub closed spec fn session(&self) -> InferSessionView {
        self.infer_session@
    }

    /// The session is well formed, and each cache belongs to the file it is
    /// stored under.
    pub closed spec fn wf(&self) -> bool {
        &&& self.infer_session.wf()
        &&& forall|k: u32| #[trigger]
            self.caches().contains_key(k) ==> self.caches()[k].file_id == FileId { id: k }
    }

    pub fn new(infer_reentry_limit: u32) -> (r: Self)
        ensures
            r.wf(),
            r.caches() == Map::<u32, InferCacheView>::empty(),
            r.session() == (InferSessionView {
                reentry_limit: infer_reentry_limit,
                stack: Seq::<FileId>::empty(),
            }),
    {
        InferCacheManager {
            infer_map: infer_caches_new(),
            infer_session: InferSession::new(infer_reentry_limit),
        }
    }

    /// The cache of `file_id`, created empty in the ordered phase when the
    /// file has none yet.
    pub fn get_infer_cache(&mut self, file_id: FileId) -> (r: &mut LuaInferCache)
        requires
            old(self).wf(),
        ensures
            r@.file_id == file_id,
            old(self).caches().contains_key(file_id.id) ==> r@ == old(self).caches()[file_id.id],
            !old(self).caches().contains_key(file_id.id) ==> is_new_cache_for(r@, file_id),
            final(self).caches() == old(self).caches().insert(file_id.id, final(r)@),
            final(self).session() == old(self).session(),
            final(r)@.file_id == file_id ==> final(self).wf(),
    {
        infer_caches_entry(&mut self.infer_map, file_id)
    }

    /// The cache of `file_id` (as `get_infer_cache`) together with the shared
    /// session, for inference that enters files while using the cache: the
    /// session afterwards is the manager's session afterwards.
    pub fn get_infer_cache_and_session(&mut self, file_id: FileId) -> (r: (
        &mut LuaInferCache,
        &mut InferSession,
    ))
        requires
            old(self).wf(),
        ensures
            r.0@.file_id == file_id,
            old(self).caches().contains_key(file_id.id) ==> r.0@ == old(self).caches()[file_id.id],
            !old(self).caches().contains_key(file_id.id) ==> is_new_cache_for(r.0@, file_id),
            r.1.wf(),
            r.1@ == old(self).session(),
            final(self).caches() == old(self).caches().insert(file_id.id, final(r.0)@),
            final(self).session() == final(r.1)@,
            final(r.0)@.file_id == file_id && final(r.1).wf() ==> final(self).wf(),
    {
        let cache = infer_caches_entry(&mut self.infer_map, file_id);
        (cache, &mut self.infer_session)
    }

    /// Enter `file_id` in the shared session (see `InferSession::enter`).
    pub fn enter_file(&mut self, file_id: FileId) -> (r: Result<InferSessionScope, InferFailReason>)
        requires
            old(self).wf(),
        ensures
            final(self).wf(),
            final(self).caches() == old(self).caches(),
            final(self).session() == old(self).session().after_enter(file_id),
            r is Err <==> old(self).session().rejects(file_id),
            r matches Err(e) ==> e == InferFailReason::RecursiveInfer,
            r matches Ok(scope) ==> scope.file_id == file_id && scope.active
                == old(self).session().pushes(file_id),
    {
        self.infer_session.enter(file_id)
    }

    /// Hand back a scope obtained from `enter_file`.
    pub fn exit_file(&mut self, scope: InferSessionScope)
        requires
            old(self).wf(),
        ensures
            final(self).wf(),
            final(self).caches() == old(self).caches(),
            final(self).session() == (if scope.active {
                old(self).session().after_exit(scope.file_id)
            } else {
                old(self).session()
            }),
    {
        self.infer_session.exit_scope(scope);
    }

    /// Put every cache in the forced phase.
    pub fn set_force(&mut self)
        requires
            old(self).wf(),
        ensures
            final(self).wf(),
            final(self).session() == old(self).session(),
            final(self).caches().dom() == old(self).caches().dom(),
            forall|k: u32| #[trigger]
                final(self).caches().contains_key(k) ==> final(self).caches()[k] == forced(
                    old(self).caches()[k],
                ),
    {
        infer_caches_force(&mut self.infer_map);
    }

    /// Empty every cache (stop positions kept) and forget every entered file
    /// in the shared session.
    pub fn clear(&mut self)
        requires
            old(self).wf(),
        ensures
            final(self).wf(),
            final(self).session() == (InferSessionView {
                reentry_limit: old(self).session().reentry_limit,
                stack: Seq::<FileId>::empty(),
            }),
            final(self).caches().dom() == old(self).caches().dom(),
            forall|k: u32| #[trigger]
                final(self).caches().contains_key(k) ==> cleared(
                    old(self).caches()[k],
                    final(self).caches()[k],
                ),
    {
        infer_caches_clear_each(&mut self.infer_map);
        self.infer_session.clear();
    }
}

impl Default for InferCacheManager {
    /// A manager whose session allows each file twice on the stack.
    fn default() -> (r: Self)
        ensures
            r.wf(),
            r.caches() == Map::<u32, InferCacheView>::empty(),
            r.session() == (InferSessionView { reentry_limit: 2, stack: Seq::<FileId>::empty() }),
    {
        Self::new(2)
    }
}

} // verus!
