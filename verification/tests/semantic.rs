use emmylua_code_analysis::cache::{CacheEntry, CacheOptions, LuaAnalysisPhase, LuaInferCache};
use emmylua_code_analysis::db_index::{DbIndex, LuaMember, LuaTypeDecl, ModuleInfo, OwnedMembers};
use emmylua_code_analysis::file_id::{FileId, InferFailReason};
use emmylua_code_analysis::infer_cache_manager::InferCacheManager;
use emmylua_code_analysis::infer_require::infer_require_call;
use emmylua_code_analysis::infer_session::InferSession;
use emmylua_code_analysis::key_order::compare_member_keys;
use emmylua_code_analysis::logger::log_file_stem;
use emmylua_code_analysis::lua_type::{
    AsyncState, LuaFunctionType, LuaMemberKey, LuaMemberOwner, LuaType, LuaTypeDeclId,
};
use emmylua_code_analysis::member_map::{
    build_member_map, get_member_map, get_member_map_in_scope,
    get_member_map_in_scope_with_session, LuaMemberInfo,
};
use emmylua_code_analysis::module_ref::with_module_export_type_session;
use emmylua_code_analysis::type_check_context::{TypeCheckCheckLevel, TypeCheckContext};
use std::cmp::Ordering;

fn empty_db() -> DbIndex {
    DbIndex {
        type_decls: vec![],
        members: vec![],
        signatures: vec![],
        modules: vec![],
        infer_reentry_limit: 2,
    }
}

fn name_key(s: &str) -> LuaMemberKey {
    LuaMemberKey::Name(s.to_string())
}

fn fun_ret(ret: LuaType) -> LuaType {
    LuaType::DocFunction(Box::new(LuaFunctionType {
        async_state: AsyncState::Plain,
        params: vec![],
        ret,
    }))
}

fn info(key: LuaMemberKey, typ: LuaType) -> LuaMemberInfo {
    LuaMemberInfo { key, typ, property_owner_id: Some(9), feature: Some(3), overload_index: None }
}

// ─── member maps ────────────────────────────────────────────────────────────

#[test]
fn member_map_groups_by_key_in_first_appearance_order() {
    let members = vec![
        info(name_key("b"), LuaType::Integer),
        info(name_key("a"), LuaType::String),
        info(name_key("b"), LuaType::Boolean),
    ];
    let map = build_member_map(members).unwrap();
    assert_eq!(map.len(), 2);
    assert_eq!(map[0].0, name_key("b"));
    assert_eq!(map[0].1.len(), 2);
    assert_eq!(map[0].1[0].typ, LuaType::Integer);
    assert_eq!(map[0].1[1].typ, LuaType::Boolean);
    assert_eq!(map[1].0, name_key("a"));
    assert_eq!(map[1].1.len(), 1);
}

#[test]
fn member_map_splits_function_unions_into_overloads() {
    let members = vec![info(
        name_key("f"),
        LuaType::Union(vec![fun_ret(LuaType::Integer), fun_ret(LuaType::String)]),
    )];
    let map = build_member_map(members).unwrap();
    assert_eq!(map.len(), 1);
    let entries = &map[0].1;
    assert_eq!(entries.len(), 2);
    assert_eq!(entries[0].typ, fun_ret(LuaType::Integer));
    assert_eq!(entries[0].overload_index, Some(0));
    assert_eq!(entries[1].typ, fun_ret(LuaType::String));
    assert_eq!(entries[1].overload_index, Some(1));
    assert_eq!(entries[1].property_owner_id, Some(9));
    assert_eq!(entries[1].feature, Some(3));
}

#[test]
fn member_map_keeps_mixed_unions_whole() {
    let t = LuaType::Union(vec![fun_ret(LuaType::Integer), LuaType::String]);
    let map = build_member_map(vec![info(name_key("f"), t)]).unwrap();
    assert_eq!(map[0].1.len(), 1);
    assert_eq!(map[0].1[0].overload_index, None);
    assert!(matches!(map[0].1[0].typ, LuaType::Union(_)));
}

#[test]
fn member_map_drops_member_of_empty_union() {
    let map = build_member_map(vec![
        info(name_key("e"), LuaType::Union(vec![])),
        info(name_key("x"), LuaType::Integer),
    ])
    .unwrap();
    assert_eq!(map.len(), 1);
    assert_eq!(map[0].0, name_key("x"));
}

fn class_db() -> DbIndex {
    let mut db = empty_db();
    db.type_decls.push(LuaTypeDecl {
        id: LuaTypeDeclId::new("Foo"),
        full_name: "Foo".to_string(),
        generic_params: None,
        is_alias: false,
        alias_origin: None,
    });
    db.members.push(OwnedMembers {
        owner: LuaMemberOwner::Type(LuaTypeDeclId::new("Foo")),
        members: vec![
            LuaMember { key: name_key("a"), type_cache: Some(LuaType::Integer) },
            LuaMember { key: name_key("b"), type_cache: None },
        ],
    });
    db.members.push(OwnedMembers {
        owner: LuaMemberOwner::Element(4),
        members: vec![LuaMember { key: LuaMemberKey::Integer(1), type_cache: Some(LuaType::String) }],
    });
    db
}

#[test]
fn get_member_map_of_class_and_table() {
    let db = class_db();
    let map = get_member_map(&db, &LuaType::Ref(LuaTypeDeclId::new("Foo"))).unwrap();
    assert_eq!(map.len(), 2);
    assert_eq!(map[0].0, name_key("a"));
    assert_eq!(map[0].1[0].typ, LuaType::Integer);
    assert_eq!(map[1].0, name_key("b"));
    assert_eq!(map[1].1[0].typ, LuaType::Any);
    let map = get_member_map(&db, &LuaType::Def(LuaTypeDeclId::new("Foo"))).unwrap();
    assert_eq!(map.len(), 2);
    let map = get_member_map(&db, &LuaType::TableConst(4)).unwrap();
    assert_eq!(map[0].0, LuaMemberKey::Integer(1));
    assert!(get_member_map(&db, &LuaType::Integer).is_none());
    assert!(get_member_map(&db, &LuaType::TableConst(5)).is_none());
    let scoped = get_member_map_in_scope(&db, FileId::new(1), &LuaType::TableConst(4)).unwrap();
    assert_eq!(scoped.len(), 1);
    let session = InferSession::new(1);
    let scoped = get_member_map_in_scope_with_session(
        &db,
        FileId::new(1),
        &LuaType::Ref(LuaTypeDeclId::new("Foo")),
        &session,
    )
    .unwrap();
    assert_eq!(scoped.len(), 2);
}

#[test]
fn member_keys_order() {
    assert_eq!(compare_member_keys(&LuaMemberKey::NoKey, &LuaMemberKey::Integer(0)), Ordering::Less);
    assert_eq!(compare_member_keys(&LuaMemberKey::Integer(5), &name_key("a")), Ordering::Less);
    assert_eq!(compare_member_keys(&name_key("b"), &name_key("a")), Ordering::Greater);
    assert_eq!(compare_member_keys(&name_key("ab"), &name_key("ab")), Ordering::Equal);
    assert_eq!(compare_member_keys(&name_key("a"), &name_key("ab")), Ordering::Less);
    assert_eq!(
        compare_member_keys(&LuaMemberKey::ExprType(1), &LuaMemberKey::Integer(9)),
        Ordering::Greater
    );
}

// ─── type check context ─────────────────────────────────────────────────────

#[test]
fn type_check_context_marks_keys() {
    let db = empty_db();
    let mut ctx = TypeCheckContext::new(&db, true, TypeCheckCheckLevel::Normal);
    assert!(ctx.detail);
    assert_eq!(ctx.level, TypeCheckCheckLevel::Normal);
    assert!(ctx.table_member_checked.is_none());
    assert!(!ctx.is_key_checked(&name_key("a")));
    ctx.mark_key_checked(name_key("a"));
    assert!(ctx.is_key_checked(&name_key("a")));
    assert!(!ctx.is_key_checked(&name_key("b")));
    ctx.mark_key_checked(name_key("a"));
    assert_eq!(ctx.table_member_checked.as_ref().unwrap().len(), 1);
    ctx.mark_key_checked(LuaMemberKey::Integer(2));
    assert!(ctx.is_key_checked(&LuaMemberKey::Integer(2)));
    assert_eq!(ctx.table_member_checked.as_ref().unwrap().len(), 2);
}

#[test]
fn type_check_context_with_session() {
    let db = empty_db();
    let mut session = InferSession::new(1);
    let _s = session.enter(FileId::new(3)).unwrap();
    let mut ctx = TypeCheckContext::new_with_session(
        &db,
        false,
        TypeCheckCheckLevel::GenericConditional,
        session,
    );
    assert_eq!(ctx.level, TypeCheckCheckLevel::GenericConditional);
    let _t = ctx.infer_session.enter(FileId::new(4)).unwrap();
    assert!(ctx.infer_session.enter(FileId::new(3)).is_err());
}

// ─── inference caches ───────────────────────────────────────────────────────

fn ordered() -> CacheOptions {
    CacheOptions { analysis_phase: LuaAnalysisPhase::Ordered }
}

#[test]
fn infer_cache_clear_keeps_stop_positions() {
    let mut cache = LuaInferCache::new(FileId::new(2), ordered());
    assert_eq!(cache.get_file_id(), FileId::new(2));
    assert_eq!(cache.get_config().analysis_phase, LuaAnalysisPhase::Ordered);
    cache.expr_cache.insert(1, CacheEntry::Cache(LuaType::Integer));
    cache.call_cache.insert(1, CacheEntry::Ready);
    cache.expr_var_ref_id_cache.insert(4, 5);
    cache.narrow_by_literal_stop_position_cache.insert(8);
    cache.clear();
    assert!(cache.expr_cache.is_empty());
    assert!(cache.call_cache.is_empty());
    assert!(cache.expr_var_ref_id_cache.is_empty());
    assert!(cache.narrow_by_literal_stop_position_cache.contains(&8));
    cache.set_phase(LuaAnalysisPhase::Force);
    assert_eq!(cache.get_config().analysis_phase, LuaAnalysisPhase::Force);
}

#[test]
fn infer_cache_enters_through_the_given_session() {
    let cache = LuaInferCache::new(FileId::new(1), ordered());
    let mut session = InferSession::new(1);
    let a = cache.enter_file_scope(&mut session, FileId::new(5)).unwrap();
    let _b = cache.enter_file_scope(&mut session, FileId::new(6)).unwrap();
    assert_eq!(
        cache.enter_file_scope(&mut session, FileId::new(5)).unwrap_err(),
        InferFailReason::RecursiveInfer
    );
    session.exit_scope(a);
    assert!(cache.enter_file_scope(&mut session, FileId::new(5)).is_ok());
    let mut off = InferSession::new(0);
    assert!(!cache.enter_file_scope(&mut off, FileId::new(1)).unwrap().active);
}

#[test]
fn managed_caches_share_the_manager_session() {
    let mut manager = InferCacheManager::new(1);
    let _a = manager.enter_file(FileId::new(1)).unwrap();
    {
        let (cache, session) = manager.get_infer_cache_and_session(FileId::new(3));
        assert_eq!(cache.get_file_id(), FileId::new(3));
        assert_eq!(session.reentry_limit(), 1);
        // file 1 was entered through the manager: entering it from under
        // another file through a cache is refused, since the session is shared
        let _b = cache.enter_file_scope(session, FileId::new(2)).unwrap();
        assert_eq!(
            cache.enter_file_scope(session, FileId::new(1)).unwrap_err(),
            InferFailReason::RecursiveInfer
        );
    }
    {
        let (cache, session) = manager.get_infer_cache_and_session(FileId::new(4));
        // file 2 entered through file 3's cache is still on the shared stack
        assert!(cache.enter_file_scope(session, FileId::new(1)).is_err());
    }
    manager.clear();
    let (cache, session) = manager.get_infer_cache_and_session(FileId::new(4));
    assert!(cache.enter_file_scope(session, FileId::new(1)).unwrap().active);
}

#[test]
fn manager_keeps_one_cache_per_file() {
    let mut manager = InferCacheManager::new(1);
    {
        let cache = manager.get_infer_cache(FileId::new(3));
        assert_eq!(cache.get_file_id(), FileId::new(3));
        assert_eq!(cache.get_config().analysis_phase, LuaAnalysisPhase::Ordered);
        cache.expr_cache.insert(10, CacheEntry::Cache(LuaType::String));
        cache.narrow_by_literal_stop_position_cache.insert(11);
    }
    {
        let cache = manager.get_infer_cache(FileId::new(3));
        assert_eq!(cache.expr_cache.len(), 1);
    }
    manager.set_force();
    assert_eq!(
        manager.get_infer_cache(FileId::new(3)).get_config().analysis_phase,
        LuaAnalysisPhase::Force
    );
    assert_eq!(
        manager.get_infer_cache(FileId::new(4)).get_config().analysis_phase,
        LuaAnalysisPhase::Ordered
    );
    let _a = manager.enter_file(FileId::new(1)).unwrap();
    let _b = manager.enter_file(FileId::new(2)).unwrap();
    assert!(manager.enter_file(FileId::new(1)).is_err());
    manager.clear();
    assert!(manager.enter_file(FileId::new(1)).is_ok());
    let cache = manager.get_infer_cache(FileId::new(3));
    assert!(cache.expr_cache.is_empty());
    assert!(cache.narrow_by_literal_stop_position_cache.contains(&11));
    assert_eq!(cache.get_config().analysis_phase, LuaAnalysisPhase::Force);
}

#[test]
fn manager_exit_file_allows_reentry() {
    let mut manager = InferCacheManager::new(1);
    let a = manager.enter_file(FileId::new(1)).unwrap();
    let b = manager.enter_file(FileId::new(2)).unwrap();
    assert!(manager.enter_file(FileId::new(1)).is_err());
    manager.exit_file(b);
    manager.exit_file(a);
    let _b = manager.enter_file(FileId::new(2)).unwrap();
    assert!(manager.enter_file(FileId::new(1)).unwrap().active);
}

#[test]
fn default_manager_allows_two_entries() {
    let mut manager = InferCacheManager::default();
    let _a1 = manager.enter_file(FileId::new(1)).unwrap();
    let _b1 = manager.enter_file(FileId::new(2)).unwrap();
    let _a2 = manager.enter_file(FileId::new(1)).unwrap();
    let _b2 = manager.enter_file(FileId::new(2)).unwrap();
    assert!(manager.enter_file(FileId::new(1)).is_err());
}

// ─── module exports and require ─────────────────────────────────────────────

fn module_db() -> DbIndex {
    let mut db = empty_db();
    db.infer_reentry_limit = 1;
    db.modules.push(ModuleInfo {
        file_id: FileId::new(1),
        require_path: "cls".to_string(),
        export_type: Some(LuaType::Def(LuaTypeDeclId::new("Foo"))),
    });
    db.modules.push(ModuleInfo {
        file_id: FileId::new(2),
        require_path: "num".to_string(),
        export_type: Some(LuaType::Integer),
    });
    db.modules.push(ModuleInfo {
        file_id: FileId::new(3),
        require_path: "none".to_string(),
        export_type: None,
    });
    db
}

#[test]
fn require_resolves_module_exports() {
    let db = module_db();
    let mut session = InferSession::new(1);
    let r = infer_require_call(&db, &mut session, Some(&LuaType::StringConst("cls".to_string())));
    assert_eq!(r, Ok(LuaType::Ref(LuaTypeDeclId::new("Foo"))));
    let r = infer_require_call(&db, &mut session, Some(&LuaType::StringConst("num".to_string())));
    assert_eq!(r, Ok(LuaType::Integer));
    let r = infer_require_call(&db, &mut session, Some(&LuaType::Integer));
    assert_eq!(r, Ok(LuaType::Any));
    let r = infer_require_call(&db, &mut session, None);
    assert_eq!(r, Err(InferFailReason::Unavailable));
    let r = infer_require_call(&db, &mut session, Some(&LuaType::StringConst("nope".to_string())));
    assert_eq!(r, Err(InferFailReason::Unavailable));
    let r = infer_require_call(&db, &mut session, Some(&LuaType::StringConst("none".to_string())));
    assert_eq!(r, Err(InferFailReason::UnResolveModuleExport(FileId::new(3))));
}

#[test]
fn require_is_refused_when_recursive() {
    let db = module_db();
    let mut session = InferSession::new(1);
    let _in_module = session.enter(FileId::new(2)).unwrap();
    let _elsewhere = session.enter(FileId::new(7)).unwrap();
    let r = infer_require_call(&db, &mut session, Some(&LuaType::StringConst("num".to_string())));
    assert_eq!(r, Err(InferFailReason::RecursiveInfer));
}

#[test]
fn module_export_lookup_errors() {
    let db = module_db();
    let mut session = InferSession::new(1);
    let r = with_module_export_type_session(&db, &mut session, FileId::new(8), |_t: &LuaType| {
        Ok::<u32, InferFailReason>(1)
    });
    assert_eq!(r, Err(InferFailReason::FieldNotFound));
    let r = with_module_export_type_session(&db, &mut session, FileId::new(2), |t: &LuaType| {
        Ok::<bool, InferFailReason>(*t == LuaType::Integer)
    });
    assert_eq!(r, Ok(true));
    // the session is left as it was: file 2 can be entered again
    assert!(session.enter(FileId::new(2)).unwrap().active);
}

#[test]
fn module_export_with_fresh_session() {
    let db = module_db();
    let mut session = InferSession::new(1);
    let r = with_module_export_type_session(&db, &mut session, FileId::new(3), |_t: &LuaType| {
        Ok::<u8, InferFailReason>(0)
    });
    assert_eq!(r, Err(InferFailReason::UnResolveModuleExport(FileId::new(3))));
    let r = with_module_export_type_session(&db, &mut session, FileId::new(1), |t: &LuaType| {
        Ok::<bool, InferFailReason>(matches!(t, LuaType::Def(_)))
    });
    assert_eq!(r, Ok(true));
}

// ─── log file names ─────────────────────────────────────────────────────────

#[test]
fn log_file_stem_of_roots() {
    assert_eq!(log_file_stem(""), "root");
    assert_eq!(log_file_stem("/"), "root");
    assert_eq!(log_file_stem("/home/user/proj"), "home_user_proj");
    assert_eq!(log_file_stem("C:\\work\\proj"), "C_work_proj");
    assert_eq!(log_file_stem("//a//b/"), "a_b");
    assert_eq!(log_file_stem("a:b"), "a_b");
    assert_eq!(log_file_stem("//"), "");
}
