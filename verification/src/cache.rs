use vstd::prelude::*;

use std::collections::{HashMap, HashSet};

use crate::file_id::{FileId, InferFailReason};
use crate::infer_session::{InferSession, InferSessionScope};
use crate::lua_type::{LuaFunctionType, LuaType};

verus! {

/// A cache slot: `Ready` while the value is being computed (a re-entry marker),
/// then the computed value.
#[derive(Debug)]
pub enum CacheEntry<T> {
    Ready,
    Cache(T),
}

/// Which analysis pass a cache serves.
#[derive(Debug, Clone, Copy, PartialEq, Eq, Structural)]
pub enum LuaAnalysisPhase {
    Ordered,
    Force,
}

/// Options of an inference cache.
#[derive(Debug, Clone, Copy, PartialEq, Eq, Structural)]
pub struct CacheOptions {
    pub analysis_phase: LuaAnalysisPhase,
}

/// Per-file inference caches. Syntax nodes, variable references and flow
/// positions are keyed by their numeric ids.
///
/// A cache holds no inference session: the session that guards inference
/// across files is owned by whoever owns the caches (an `InferCacheManager`
/// shares its one session among all of its caches) and is handed to the
/// operations that enter files.
pub struct LuaInferCache {
    file_id: FileId,
    config: CacheOptions,
    pub expr_cache: HashMap<u64, CacheEntry<LuaType>>,
    pub call_cache: HashMap<u64, CacheEntry<LuaFunctionType>>,
    pub flow_node_cache: HashMap<u64, CacheEntry<LuaType>>,
    /// Flow actions by the id of the action.
    pub condition_flow_cache: HashMap<u64, CacheEntry<u64>>,
    pub index_ref_origin_type_cache: HashMap<u64, CacheEntry<LuaType>>,
    pub expr_var_ref_id_cache: HashMap<u64, u64>,
    pub narrow_by_literal_stop_position_cache: HashSet<u64>,
}

/// The abstract content of a `LuaInferCache`.
pub struct InferCacheView {
    pub file_id: FileId,
    pub config: CacheOptions,
    pub expr: Map<u64, CacheEntry<LuaType>>,
    pub call: Map<u64, CacheEntry<LuaFunctionType>>,
    pub flow_node: Map<u64, CacheEntry<LuaType>>,
    pub condition_flow: Map<u64, CacheEntry<u64>>,
    pub index_ref_origin: Map<u64, CacheEntry<LuaType>>,
    pub expr_var_ref_id: Map<u64, u64>,
    pub narrow_stop: Set<u64>,
}

impl InferCacheView {
    /// Every cache that `clear` empties is empty.
    pub open spec fn caches_empty(self) -> bool {
        &&& self.expr == Map::<u64, CacheEntry<LuaType>>::empty()
        &&& self.call == Map::<u64, CacheEntry<LuaFunctionType>>::empty()
        &&& self.flow_node == Map::<u64, CacheEntry<LuaType>>::empty()
        &&& self.condition_flow == Map::<u64, CacheEntry<u64>>::empty()
        &&& self.index_ref_origin == Map::<u64, CacheEntry<LuaType>>::empty()
        &&& self.expr_var_ref_id == Map::<u64, u64>::empty()
    }

    /// A new cache: every cache empty, no stop position recorded.
    pub open spec fn is_fresh(self) -> bool {
        &&& self.caches_empty()
        &&& self.narrow_stop == Set::<u64>::empty()
    }
}

impl View for LuaInferCache {
    type V = InferCacheView;

    closed spec fn view(&self) -> InferCacheView {
        InferCacheView {
            file_id: self.file_id,
            config: self.config,
            expr: self.expr_cache@,
            call: self.call_cache@,
            flow_node: self.flow_node_cache@,
            condition_flow: self.condition_flow_cache@,
            index_ref_origin: self.index_ref_origin_type_cache@,
            expr_var_ref_id: self.expr_var_ref_id_cache@,
            narrow_stop: self.narrow_by_literal_stop_position_cache@,
        }
    }
}

impl LuaInferCache {
    /// An empty cache for `file_id`.
    pub fn new(file_id: FileId, config: CacheOptions) -> (r: Self)
        ensures
            r@.file_id == file_id,
            r@.config == config,
            r@.is_fresh(),
    {
        LuaInferCache {
            file_id,
            config,
            expr_cache: HashMap::new(),
            call_cache: HashMap::new(),
            flow_node_cache: HashMap::new(),
            condition_flow_cache: HashMap::new(),
            index_ref_origin_type_cache: HashMap::new(),
            expr_var_ref_id_cache: HashMap::new(),
            narrow_by_literal_stop_position_cache: HashSet::new(),
        }
    }

    pub fn get_config(&self) -> (r: &CacheOptions)
        ensures
            *r == self@.config,
    {
        &self.config
    }

    pub fn get_file_id(&self) -> (r: FileId)
        ensures
            r == self@.file_id,
    {
        self.file_id
    }

    /// Enter `file_id` in the session that inference with this cache runs
    /// under (see `InferSession::enter`); the cache itself is not changed.
    pub fn enter_file_scope(&self, infer_session: &mut InferSession, file_id: FileId) -> (r: Result<
        InferSessionScope,
        InferFailReason,
    >)
        requires
            old(infer_session).wf(),
        ensures
            final(infer_session).wf(),
            final(infer_session)@ == old(infer_session)@.after_enter(file_id),
            r is Err <==> old(infer_session)@.rejects(file_id),
            r matches Err(e) ==> e == InferFailReason::RecursiveInfer,
            r matches Ok(scope) ==> scope.file_id == file_id && scope.active == old(
                infer_session,
            )@.pushes(file_id),
    {
        infer_session.enter(file_id)
    }

    pub fn set_phase(&mut self, phase: LuaAnalysisPhase)
        ensures
            final(self)@ == (InferCacheView {
                config: CacheOptions { analysis_phase: phase },
                ..old(self)@
            }),
    {
        self.config.analysis_phase = phase;
    }

    /// Empty the inference caches. The literal-narrowing stop positions and
    /// the options are kept.
    pub fn clear(&mut self)
        ensures
            final(self)@.caches_empty(),
            final(self)@.file_id == old(self)@.file_id,
            final(self)@.config == old(self)@.config,
            final(self)@.narrow_stop == old(self)@.narrow_stop,
    {
        self.expr_cache.clear();
        self.call_cache.clear();
        self.flow_node_cache.clear();
        self.condition_flow_cache.clear();
        self.index_ref_origin_type_cache.clear();
        self.expr_var_ref_id_cache.clear();
    }
}

} // verus!
