use vstd::prelude::*;

use crate::db_index::{find_module, DbIndex, DbView};
use crate::file_id::{FileId, InferFailReason};
use crate::infer_session::{lemma_enter_then_exit_restores, InferSession, InferSessionView};
use crate::lua_type::{LuaType, TypeV};

verus! {

/// What becomes of a lookup of the export type of `file_id` when the session
/// is in state `s`: an error, or (on `Ok`) the export type to hand on.
pub open spec fn module_export_outcome(db: DbView, s: InferSessionView, file_id: FileId) -> Result<
    TypeV,
    InferFailReason,
> {
    if s.rejects(file_id) {
        Err(InferFailReason::RecursiveInfer)
    } else {
        match find_module(db.modules, file_id.id) {
            None => Err(InferFailReason::FieldNotFound),
            Some(None) => Err(InferFailReason::UnResolveModuleExport(file_id)),
            Some(Some(t)) => Ok(t),
        }
    }
}

/// Run `f` on the export type of the module in `file_id`, with `file_id`
/// entered in `infer_session` while `f` runs. The session ends as it began.
pub fn with_module_export_type_session<T, F: FnOnce(&LuaType) -> Result<T, InferFailReason>>(
    db: &DbIndex,
    infer_session: &mut InferSession,
    file_id: FileId,
    f: F,
) -> (r: Result<T, InferFailReason>)
    requires
        old(infer_session).wf(),
        forall|t: &LuaType| f.requires((t,)),
    ensures
        final(infer_session).wf(),
        final(infer_session)@ == old(infer_session)@,
        match module_export_outcome(db.view(), old(infer_session)@, file_id) {
            Err(e) => r == Err::<T, InferFailReason>(e),
            Ok(tv) => exists|t: &LuaType| t.view() == tv && f.ensures((t,), r),
        },
{
    let ghost s0 = infer_session@;
    let scope = match infer_session.enter(file_id) {
        Ok(scope) => scope,
        Err(e) => return Err(e),
    };
    proof {
        lemma_enter_then_exit_restores(s0, file_id);
    }
    let module_info = match db.get_module(file_id) {
        Some(m) => m,
        None => {
            infer_session.exit_scope(scope);
            return Err(InferFailReason::FieldNotFound);
        },
    };
    let export_type = match &module_info.export_type {
        Some(t) => t,
        None => {
            infer_session.exit_scope(scope);
            return Err(InferFailReason::UnResolveModuleExport(file_id));
        },
    };
    let r = f(export_type);
    infer_session.exit_scope(scope);
    r
}

} // verus!
