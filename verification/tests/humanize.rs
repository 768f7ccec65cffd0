use emmylua_code_analysis::db_index::{
    DbIndex, LuaMember, LuaSignature, LuaTypeDecl, ModuleInfo, OwnedMembers,
};
use emmylua_code_analysis::file_id::FileId;
use emmylua_code_analysis::humanize_type::{format_union_type, humanize_type, TypeHumanizer};
use emmylua_code_analysis::lua_type::{
    AsyncState, LuaAliasCallKind, LuaFunctionType, LuaMemberKey, LuaMemberOwner, LuaObjectType,
    LuaType, LuaTypeDeclId, VariadicType,
};
use emmylua_code_analysis::render_level::RenderLevel;

fn empty_db() -> DbIndex {
    DbIndex {
        type_decls: vec![],
        members: vec![],
        signatures: vec![],
        modules: vec![],
        infer_reentry_limit: 2,
    }
}

fn decl(name: &str) -> LuaTypeDecl {
    LuaTypeDecl {
        id: LuaTypeDeclId::new(name),
        full_name: name.to_string(),
        generic_params: None,
        is_alias: false,
        alias_origin: None,
    }
}

fn name_key(s: &str) -> LuaMemberKey {
    LuaMemberKey::Name(s.to_string())
}

fn nil_fun() -> LuaType {
    LuaType::DocFunction(Box::new(LuaFunctionType {
        async_state: AsyncState::Plain,
        params: vec![],
        ret: LuaType::Nil,
    }))
}

fn h(db: &DbIndex, ty: &LuaType, level: RenderLevel) -> String {
    humanize_type(db, ty, level)
}

#[test]
fn basic_types() {
    let db = empty_db();
    assert_eq!(h(&db, &LuaType::Integer, RenderLevel::Normal), "integer");
    assert_eq!(h(&db, &LuaType::Any, RenderLevel::Normal), "any");
    assert_eq!(h(&db, &LuaType::Nil, RenderLevel::Normal), "nil");
    assert_eq!(h(&db, &LuaType::SelfInfer, RenderLevel::Normal), "self");
    assert_eq!(h(&db, &LuaType::Never, RenderLevel::Normal), "never");
    assert_eq!(h(&db, &LuaType::Global, RenderLevel::Normal), "global");
}

#[test]
fn constants() {
    let db = empty_db();
    assert_eq!(h(&db, &LuaType::IntegerConst(-42), RenderLevel::Normal), "-42");
    assert_eq!(h(&db, &LuaType::DocIntegerConst(7), RenderLevel::Normal), "7");
    assert_eq!(h(&db, &LuaType::BooleanConst(true), RenderLevel::Normal), "true");
    assert_eq!(h(&db, &LuaType::DocBooleanConst(false), RenderLevel::Normal), "false");
    assert_eq!(
        h(&db, &LuaType::IntegerConst(i64::MIN), RenderLevel::Normal),
        "-9223372036854775808"
    );
}

#[test]
fn float_constant_gets_fraction() {
    let db = empty_db();
    assert_eq!(h(&db, &LuaType::FloatConst(1.0f64.to_string()), RenderLevel::Normal), "1.0");
    assert_eq!(h(&db, &LuaType::FloatConst(1.5f64.to_string()), RenderLevel::Normal), "1.5");
}

#[test]
fn string_constant_is_escaped() {
    let db = empty_db();
    let t = LuaType::StringConst("a\"b\n\\c\t\u{1b}\u{1}".to_string());
    assert_eq!(h(&db, &t, RenderLevel::Normal), "\"a\\\"b\\n\\\\c\\t\\27\\x01\"");
    let t = LuaType::DocStringConst("\u{85}".to_string());
    assert_eq!(h(&db, &t, RenderLevel::Normal), "\"\\x85\"");
}

#[test]
fn union_with_nil() {
    let db = empty_db();
    let t = LuaType::Union(vec![LuaType::Integer, LuaType::String, LuaType::Nil]);
    assert_eq!(h(&db, &t, RenderLevel::Normal), "(integer|string)?");
}

#[test]
fn union_deduplicates() {
    let db = empty_db();
    let t = LuaType::Union(vec![LuaType::Integer, LuaType::Integer]);
    assert_eq!(h(&db, &t, RenderLevel::Normal), "integer");
    let t = LuaType::Union(vec![LuaType::Integer, LuaType::Nil]);
    assert_eq!(h(&db, &t, RenderLevel::Normal), "integer?");
}

#[test]
fn union_of_function_and_nil_is_parenthesized() {
    let db = empty_db();
    let t = LuaType::Union(vec![nil_fun(), LuaType::Nil]);
    assert_eq!(h(&db, &t, RenderLevel::Normal), "(fun())?");
}

#[test]
fn union_is_cut_at_the_level_limit() {
    let db = empty_db();
    let t = LuaType::Union(vec![LuaType::Integer, LuaType::String, LuaType::Boolean]);
    assert_eq!(h(&db, &t, RenderLevel::Minimal), "(integer|string...)");
    assert_eq!(h(&db, &t, RenderLevel::Normal), "(integer|string|boolean)");
}

#[test]
fn tuple_array_intersection() {
    let db = empty_db();
    let t = LuaType::Tuple(vec![LuaType::Integer, LuaType::String]);
    assert_eq!(h(&db, &t, RenderLevel::Normal), "(integer,string)");
    let t = LuaType::Array(Box::new(LuaType::Integer));
    assert_eq!(h(&db, &t, RenderLevel::Normal), "integer[]");
    let t = LuaType::Intersection(vec![LuaType::Integer, LuaType::String]);
    assert_eq!(h(&db, &t, RenderLevel::Normal), "(integer & string)");
    let t = LuaType::Tuple(vec![
        LuaType::Integer,
        LuaType::Integer,
        LuaType::Integer,
    ]);
    assert_eq!(h(&db, &t, RenderLevel::Brief), "(integer,integer...)");
}

#[test]
fn object_fields_are_sorted() {
    let db = empty_db();
    let t = LuaType::Object(Box::new(LuaObjectType {
        fields: vec![
            (name_key("b"), LuaType::String),
            (name_key("a"), LuaType::Integer),
            (LuaMemberKey::Integer(1), LuaType::Boolean),
        ],
        index_access: vec![],
    }));
    assert_eq!(h(&db, &t, RenderLevel::Normal), "{ [1]: boolean, a: integer, b: string }");
    assert_eq!(h(&db, &t, RenderLevel::Minimal), "{...}");
}

#[test]
fn object_index_access() {
    let db = empty_db();
    let t = LuaType::Object(Box::new(LuaObjectType {
        fields: vec![(name_key("n"), LuaType::Integer)],
        index_access: vec![(LuaType::String, LuaType::Boolean)],
    }));
    assert_eq!(h(&db, &t, RenderLevel::Normal), "{ n: integer, [string]: boolean }");
}

#[test]
fn depth_limit_elides() {
    let db = empty_db();
    let mut w = String::new();
    let mut hz = TypeHumanizer::new(&db, RenderLevel::Normal).with_max_depth(0);
    hz.write_type(&LuaType::Integer, &mut w);
    assert_eq!(w, "...");
    let mut w = String::new();
    let mut hz = TypeHumanizer::new(&db, RenderLevel::Normal).with_max_depth(1);
    hz.write_type(&LuaType::Array(Box::new(LuaType::Integer)), &mut w);
    assert_eq!(w, "...[]");
}

#[test]
fn write_type_appends() {
    let db = empty_db();
    let mut w = String::from("x: ");
    let mut hz = TypeHumanizer::new(&db, RenderLevel::Normal);
    hz.write_type(&LuaType::Boolean, &mut w);
    hz.write_type(&LuaType::Nil, &mut w);
    assert_eq!(w, "x: booleannil");
}

#[test]
fn doc_function_rendering() {
    let db = empty_db();
    let f = LuaType::DocFunction(Box::new(LuaFunctionType {
        async_state: AsyncState::Async,
        params: vec![
            ("a".to_string(), Some(LuaType::Integer)),
            ("b".to_string(), None),
        ],
        ret: LuaType::String,
    }));
    assert_eq!(h(&db, &f, RenderLevel::Normal), "async fun(a: integer, b) -> string");
    assert_eq!(h(&db, &f, RenderLevel::Minimal), "fun(...) -> ...");
    assert_eq!(h(&db, &nil_fun(), RenderLevel::Normal), "fun()");
    let g = LuaType::DocFunction(Box::new(LuaFunctionType {
        async_state: AsyncState::Sync,
        params: vec![],
        ret: LuaType::Variadic(Box::new(VariadicType::Multi(vec![LuaType::Nil, LuaType::Integer]))),
    }));
    assert_eq!(h(&db, &g, RenderLevel::Normal), "sync fun()");
}

#[test]
fn variadic_and_templates() {
    let db = empty_db();
    let t = LuaType::Variadic(Box::new(VariadicType::Base(LuaType::Integer)));
    assert_eq!(h(&db, &t, RenderLevel::Normal), "integer ...");
    let t = LuaType::Variadic(Box::new(VariadicType::Multi(vec![LuaType::Integer, LuaType::String])));
    assert_eq!(h(&db, &t, RenderLevel::Normal), "(integer,string)");
    assert_eq!(h(&db, &t, RenderLevel::Minimal), "multi<...>");
    let t = LuaType::StrTplRef("pre".to_string(), "T".to_string());
    assert_eq!(h(&db, &t, RenderLevel::Normal), "pre`T`");
    let t = LuaType::StrTplRef(String::new(), "T".to_string());
    assert_eq!(h(&db, &t, RenderLevel::Normal), "T");
    let t = LuaType::TplRef(0, "U".to_string());
    assert_eq!(h(&db, &t, RenderLevel::Normal), "U");
}

#[test]
fn wrappers_and_misc() {
    let db = empty_db();
    let t = LuaType::TypeGuard(Box::new(LuaType::Integer));
    assert_eq!(h(&db, &t, RenderLevel::Normal), "TypeGuard<integer>");
    let t = LuaType::Namespace("ns".to_string());
    assert_eq!(h(&db, &t, RenderLevel::Normal), "{ ns }");
    let t = LuaType::Conditional(
        Box::new(LuaType::Boolean),
        Box::new(LuaType::Integer),
        Box::new(LuaType::String),
    );
    assert_eq!(h(&db, &t, RenderLevel::Normal), "boolean and integer or string");
    let t = LuaType::Call(LuaAliasCallKind::KeyOf, vec![LuaType::Ref(LuaTypeDeclId::new("Foo"))]);
    assert_eq!(h(&db, &t, RenderLevel::Normal), "keyof<Foo>");
    let t = LuaType::TableGeneric(vec![LuaType::String, LuaType::Integer]);
    assert_eq!(h(&db, &t, RenderLevel::Normal), "table<string,integer>");
    assert_eq!(h(&db, &t, RenderLevel::Minimal), "table<...>");
    let t = LuaType::Instance(Box::new(LuaType::Table));
    assert_eq!(h(&db, &t, RenderLevel::Normal), "table");
}

fn class_db() -> DbIndex {
    let mut db = empty_db();
    db.type_decls.push(decl("Foo"));
    db.members.push(OwnedMembers {
        owner: LuaMemberOwner::Type(LuaTypeDeclId::new("Foo")),
        members: vec![
            LuaMember { key: name_key("a"), type_cache: Some(LuaType::Integer) },
            LuaMember { key: name_key("c"), type_cache: Some(LuaType::IntegerConst(5)) },
            LuaMember { key: name_key("f"), type_cache: Some(nil_fun()) },
        ],
    });
    db
}

#[test]
fn class_reference_expands_when_detailed() {
    let db = class_db();
    let t = LuaType::Ref(LuaTypeDeclId::new("Foo"));
    assert_eq!(
        h(&db, &t, RenderLevel::Detailed),
        "Foo {\n    a: integer,\n    c: integer = 5,\n    f: function,\n}"
    );
    assert_eq!(h(&db, &t, RenderLevel::Normal), "Foo");
    let t = LuaType::Def(LuaTypeDeclId::new("Foo"));
    assert_eq!(
        h(&db, &t, RenderLevel::CustomDetailed(1)),
        "Foo {\n    a = integer,\n    f = function,\n    ...(+2)\n}"
    );
}

#[test]
fn unknown_reference_shows_its_name() {
    let db = empty_db();
    let t = LuaType::Ref(LuaTypeDeclId::new("Missing"));
    assert_eq!(h(&db, &t, RenderLevel::Detailed), "Missing");
}

#[test]
fn self_referencing_class_stops_at_the_cycle() {
    let mut db = empty_db();
    db.type_decls.push(decl("Node"));
    db.members.push(OwnedMembers {
        owner: LuaMemberOwner::Type(LuaTypeDeclId::new("Node")),
        members: vec![LuaMember {
            key: name_key("next"),
            type_cache: Some(LuaType::Ref(LuaTypeDeclId::new("Node"))),
        }],
    });
    let t = LuaType::Ref(LuaTypeDeclId::new("Node"));
    assert_eq!(h(&db, &t, RenderLevel::Detailed), "Node {\n    next: Node,\n}");
}

#[test]
fn generic_class_and_alias() {
    let mut db = empty_db();
    let mut list = decl("List");
    list.generic_params = Some(vec!["T".to_string()]);
    db.type_decls.push(list);
    let mut bx = decl("Box");
    bx.generic_params = Some(vec!["T".to_string()]);
    bx.is_alias = true;
    bx.alias_origin = Some(LuaType::Array(Box::new(LuaType::TplRef(0, "T".to_string()))));
    db.type_decls.push(bx);

    let t = LuaType::Def(LuaTypeDeclId::new("List"));
    assert_eq!(h(&db, &t, RenderLevel::Normal), "List<T>");
    let t = LuaType::Generic(LuaTypeDeclId::new("Box"), vec![LuaType::Integer]);
    assert_eq!(h(&db, &t, RenderLevel::Detailed), "Box<integer> = integer[]");
    assert_eq!(h(&db, &t, RenderLevel::Normal), "Box<integer>");
    let t = LuaType::Generic(LuaTypeDeclId::new("Nope"), vec![LuaType::Integer]);
    assert_eq!(h(&db, &t, RenderLevel::Normal), "Nope");
}

#[test]
fn signatures() {
    let mut db = empty_db();
    db.signatures.push(LuaSignature {
        id: 1,
        generic_params: vec![],
        is_vararg: false,
        params: vec![
            ("a".to_string(), Some(LuaType::Integer)),
            ("b".to_string(), None),
        ],
        return_type: LuaType::Integer,
        return_docs: vec![LuaType::Integer, LuaType::String],
    });
    db.signatures.push(LuaSignature {
        id: 2,
        generic_params: vec!["T".to_string()],
        is_vararg: true,
        params: vec![("args".to_string(), Some(LuaType::Any))],
        return_type: LuaType::Nil,
        return_docs: vec![LuaType::Nil],
    });
    assert_eq!(
        h(&db, &LuaType::Signature(1), RenderLevel::Normal),
        "fun(a: integer, b) -> integer,string"
    );
    assert_eq!(h(&db, &LuaType::Signature(2), RenderLevel::Normal), "fun<T>(...args: any)");
    assert_eq!(h(&db, &LuaType::Signature(3), RenderLevel::Normal), "unknown");
    assert_eq!(h(&db, &LuaType::Signature(1), RenderLevel::Minimal), "fun(...) -> ...");
}

#[test]
fn multi_line_union_details() {
    let db = empty_db();
    let t = LuaType::MultiLineUnion(vec![
        (LuaType::StringConst("a".to_string()), Some("first\nline".to_string())),
        (LuaType::StringConst("b".to_string()), None),
    ]);
    assert_eq!(
        h(&db, &t, RenderLevel::Detailed),
        "(\"a\"|\"b\")\n    | \"a\" -- first line\n    | \"b\"\n"
    );
    assert_eq!(h(&db, &t, RenderLevel::Normal), "(\"a\"|\"b\")");
}

#[test]
fn table_literal() {
    let mut db = empty_db();
    db.members.push(OwnedMembers {
        owner: LuaMemberOwner::Element(5),
        members: vec![LuaMember { key: name_key("x"), type_cache: Some(LuaType::IntegerConst(1)) }],
    });
    assert_eq!(h(&db, &LuaType::TableConst(5), RenderLevel::Simple), "{ x = 1 }");
    assert_eq!(h(&db, &LuaType::TableConst(5), RenderLevel::Detailed), "{\n    x: integer = 1,\n}");
    assert_eq!(h(&db, &LuaType::TableConst(5), RenderLevel::Normal), "table");
    assert_eq!(h(&db, &LuaType::TableConst(6), RenderLevel::Simple), "table");
}

#[test]
fn module_references() {
    let mut db = empty_db();
    db.infer_reentry_limit = 1;
    db.modules.push(ModuleInfo {
        file_id: FileId::new(1),
        require_path: "m".to_string(),
        export_type: Some(LuaType::Integer),
    });
    db.modules.push(ModuleInfo {
        file_id: FileId::new(3),
        require_path: "a".to_string(),
        export_type: Some(LuaType::ModuleRef(FileId::new(4))),
    });
    db.modules.push(ModuleInfo {
        file_id: FileId::new(4),
        require_path: "b".to_string(),
        export_type: Some(LuaType::ModuleRef(FileId::new(3))),
    });
    assert_eq!(h(&db, &LuaType::ModuleRef(FileId::new(1)), RenderLevel::Normal), "integer");
    assert_eq!(h(&db, &LuaType::ModuleRef(FileId::new(2)), RenderLevel::Normal), "module 'unknown'");
    assert_eq!(
        h(&db, &LuaType::ModuleRef(FileId::new(3)), RenderLevel::Normal),
        "module 'recursive'"
    );
}

#[test]
fn format_union_with_custom_formatter() {
    let db = empty_db();
    let types = vec![LuaType::Integer, LuaType::Nil, LuaType::String];
    let r = format_union_type(&types, RenderLevel::Normal, |t: &LuaType, l: RenderLevel| {
        humanize_type(&db, t, l)
    });
    assert_eq!(r, "(integer|string)?");
    let types = vec![LuaType::Integer, LuaType::Nil];
    let r = format_union_type(&types, RenderLevel::Normal, |t: &LuaType, l: RenderLevel| {
        humanize_type(&db, t, l)
    });
    assert_eq!(r, "integer?");
    let types = vec![nil_fun(), LuaType::Nil];
    let r = format_union_type(&types, RenderLevel::Normal, |t: &LuaType, l: RenderLevel| {
        humanize_type(&db, t, l)
    });
    assert_eq!(r, "(fun())?");
    let types = vec![LuaType::Integer, LuaType::String, LuaType::Boolean];
    let r = format_union_type(&types, RenderLevel::Brief, |t: &LuaType, _l: RenderLevel| {
        humanize_type(&db, t, RenderLevel::Normal)
    });
    assert_eq!(r, "(integer|string...)");
}

#[test]
fn render_level_steps() {
    assert_eq!(RenderLevel::Documentation.next_level(), RenderLevel::Simple);
    assert_eq!(RenderLevel::CustomDetailed(3).next_level(), RenderLevel::Simple);
    assert_eq!(RenderLevel::Simple.next_level(), RenderLevel::Normal);
    assert_eq!(RenderLevel::Normal.next_level(), RenderLevel::Brief);
    assert_eq!(RenderLevel::Brief.next_level(), RenderLevel::Minimal);
    assert_eq!(RenderLevel::Minimal.next_level(), RenderLevel::Minimal);
    assert_eq!(RenderLevel::Detailed.max_items(), 10);
    assert_eq!(RenderLevel::CustomDetailed(7).max_union_items(), 7);
    assert_eq!(RenderLevel::Normal.max_display_count(), None);
    assert_eq!(RenderLevel::Detailed.max_display_count(), Some(12));
}

#[test]
fn object_renders_alike_in_any_field_order() {
    let db = empty_db();
    let a = LuaType::Object(Box::new(LuaObjectType {
        fields: vec![(name_key("y"), LuaType::String), (name_key("x"), LuaType::Integer)],
        index_access: vec![],
    }));
    let b = LuaType::Object(Box::new(LuaObjectType {
        fields: vec![(name_key("x"), LuaType::Integer), (name_key("y"), LuaType::String)],
        index_access: vec![],
    }));
    assert_eq!(h(&db, &a, RenderLevel::Normal), h(&db, &b, RenderLevel::Normal));
    assert_eq!(h(&db, &a, RenderLevel::Normal), "{ x: integer, y: string }");
}

#[test]
fn escaping_keeps_different_strings_apart() {
    let db = empty_db();
    let a = h(&db, &LuaType::StringConst("\\n".to_string()), RenderLevel::Normal);
    let b = h(&db, &LuaType::StringConst("\n".to_string()), RenderLevel::Normal);
    assert_ne!(a, b);
    assert_eq!(a, "\"\\\\n\"");
    assert_eq!(b, "\"\\n\"");
    let c = h(&db, &LuaType::StringConst("\u{1b}".to_string()), RenderLevel::Normal);
    let d = h(&db, &LuaType::StringConst("\\27".to_string()), RenderLevel::Normal);
    assert_ne!(c, d);
    assert!(!c.chars().any(|ch| ch.is_control()));
}
