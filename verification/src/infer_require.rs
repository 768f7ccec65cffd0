use vstd::prelude::*;

use crate::db_index::{find_module, find_module_by_path, DbIndex, DbView};
use crate::file_id::{FileId, InferFailReason};
use crate::infer_session::{InferSession, InferSessionView};
use crate::instantiate::clone_type;
use crate::lua_type::{LuaType, LuaTypeDeclId, TypeV};
use crate::module_ref::{module_export_outcome, with_module_export_type_session};

verus! {

/// A class declaration read as a value refers to the class.
pub open spec fn def_as_ref(t: TypeV) -> TypeV {
    match t {
        TypeV::Def(id) => TypeV::Ref(id),
        _ => t,
    }
}

/// What `require(arg)` evaluates to, where `arg` is the type of the first
/// argument (`None` when the call has none) and `s` the session's state.
pub open spec fn require_outcome(db: DbView, s: InferSessionView, arg: Option<TypeV>) -> Result<
    TypeV,
    InferFailReason,
> {
    match arg {
        None => Err(InferFailReason::Unavailable),
        Some(TypeV::StringConst(path)) => match find_module_by_path(db.require_paths, path) {
            None => Err(InferFailReason::Unavailable),
            Some(file) => match module_export_outcome(db, s, FileId { id: file }) {
                Err(e) => Err(e),
                Ok(t) => Ok(def_as_ref(t)),
            },
        },
        Some(_) => Ok(TypeV::Any),
    }
}

/// A `require` of a module's path gives that module's export type as it
/// is, except that a class declaration `Def(id)` becomes the reference
/// `Ref(id)`; a path no module has, or a call without argument, fails with
/// `Unavailable`; any argument that is not a string constant gives `any`.
/// While the module's file cannot be entered the call fails with
/// `RecursiveInfer`; a file with no module record gives `FieldNotFound`, and a
/// module without an export type `UnResolveModuleExport`.
pub proof fn lemma_require_gives_export_type(
    db: DbView,
    s: InferSessionView,
    path: Seq<char>,
    file: u32,
    t: TypeV,
    other: TypeV,
)
    ensures
        find_module_by_path(db.require_paths, path) == Some(file) && !s.rejects(FileId { id: file })
            && find_module(db.modules, file) == Some(Some(t)) ==> {
            &&& !(t is Def) ==> require_outcome(db, s, Some(TypeV::StringConst(path))) == Ok::<
                TypeV,
                InferFailReason,
            >(t)
            &&& (t matches TypeV::Def(id) ==> require_outcome(
                db,
                s,
                Some(TypeV::StringConst(path)),
            ) == Ok::<TypeV, InferFailReason>(TypeV::Ref(id)))
        },
        find_module_by_path(db.require_paths, path) is None ==> require_outcome(
            db,
            s,
            Some(TypeV::StringConst(path)),
        ) == Err::<TypeV, InferFailReason>(InferFailReason::Unavailable),
        find_module_by_path(db.require_paths, path) == Some(file) && s.rejects(FileId { id: file })
            ==> require_outcome(db, s, Some(TypeV::StringConst(path))) == Err::<
            TypeV,
            InferFailReason,
        >(InferFailReason::RecursiveInfer),
        find_module_by_path(db.require_paths, path) == Some(file) && !s.rejects(FileId { id: file })
            && find_module(db.modules, file) is None ==> require_outcome(
            db,
            s,
            Some(TypeV::StringConst(path)),
        ) == Err::<TypeV, InferFailReason>(InferFailReason::FieldNotFound),
        find_module_by_path(db.require_paths, path) == Some(file) && !s.rejects(FileId { id: file })
            && find_module(db.modules, file) == Some(None::<TypeV>) ==> require_outcome(
            db,
            s,
            Some(TypeV::StringConst(path)),
        ) == Err::<TypeV, InferFailReason>(InferFailReason::UnResolveModuleExport(FileId { id: file })),
        require_outcome(db, s, None) == Err::<TypeV, InferFailReason>(InferFailReason::Unavailable),
        !(other is StringConst) ==> require_outcome(db, s, Some(other)) == Ok::<
            TypeV,
            InferFailReason,
        >(TypeV::Any),
{
}

/// The type of a `require` call, given the inferred type of its first
/// argument (`None` when the call has no argument), inferred under
/// `infer_session`. A string constant names the module whose export type is
/// the result; any other argument gives `any`. The module's file is entered
/// in `infer_session` while its export is read.
pub fn infer_require_call(
    db: &DbIndex,
    infer_session: &mut InferSession,
    first_arg_type: Option<&LuaType>,
) -> (r: Result<LuaType, InferFailReason>)
    requires
        old(infer_session).wf(),
    ensures
        final(infer_session).wf(),
        final(infer_session)@ == old(infer_session)@,
        match require_outcome(
            db.view(),
            old(infer_session)@,
            match first_arg_type {
                Some(t) => Some(t.view()),
                None => None,
            },
        ) {
            Ok(t) => r matches Ok(x) && x.view() == t,
            Err(e) => r == Err::<LuaType, InferFailReason>(e),
        },
{
    let require_path_type = match first_arg_type {
        Some(t) => t,
        None => return Err(InferFailReason::Unavailable),
    };
    let require_path = match require_path_type {
        LuaType::StringConst(p) => p,
        _ => return Ok(LuaType::Any),
    };
    let module_info = match db.find_module(require_path) {
        Some(m) => m,
        None => return Err(InferFailReason::Unavailable),
    };
    let file_id = module_info.file_id;
    let f = |ty: &LuaType| -> (res: Result<LuaType, InferFailReason>)
        ensures
            res matches Ok(x) && x.view() == def_as_ref(ty.view()),
        {
            match ty {
                LuaType::Def(id) => Ok(LuaType::Ref(LuaTypeDeclId { name: id.name.clone() })),
                _ => Ok(clone_type(ty)),
            }
        };
    with_module_export_type_session(db, infer_session, file_id, f)
}

} // verus!
