use vstd::prelude::*;

use crate::file_id::FileId;

verus! {

broadcast use vstd::std_specs::vec::axiom_vec_decreases_to_view;

// ─── executable types ───────────────────────────────────────────────────────

/// Name of a declared class, alias or enum.
#[derive(Debug, Clone, PartialEq, Eq)]
pub struct LuaTypeDeclId {
    pub name: String,
}

impl LuaTypeDeclId {
    pub fn new(name: &str) -> (r: LuaTypeDeclId)
        ensures
            r.name@ == name@,
    {
        LuaTypeDeclId { name: String::from_str(name) }
    }

    pub fn get_name(&self) -> (r: &str)
        ensures
            r@ == self.name@,
    {
        self.name.as_str()
    }
}

/// Key of a table member. `ExprType` keys carry an id that stands for the
/// key's type expression: equal ids stand for equal types.
#[derive(Debug, Clone, PartialEq, Eq)]
pub enum LuaMemberKey {
    NoKey,
    Integer(i64),
    Name(String),
    ExprType(u64),
}

/// Who owns a set of members: a declared type, or a table literal (by id).
#[derive(Debug, Clone, PartialEq, Eq)]
pub enum LuaMemberOwner {
    Type(LuaTypeDeclId),
    Element(u32),
}

/// Async annotation of a function type (`Plain` is the unannotated one).
#[derive(Debug, Clone, Copy, PartialEq, Eq, Structural)]
pub enum AsyncState {
    Plain,
    Async,
    Sync,
}

#[derive(Debug, Clone, Copy, PartialEq, Eq, Structural)]
pub enum LuaAliasCallKind {
    Sub,
    Add,
    KeyOf,
    Extends,
    Select,
    Unpack,
    Index,
    RawGet,
    Merge,
}

/// `fun(params) -> ret`.
#[derive(Debug, PartialEq, Eq)]
pub struct LuaFunctionType {
    pub async_state: AsyncState,
    pub params: Vec<(String, Option<LuaType>)>,
    pub ret: LuaType,
}

/// `{ field: type, [key]: value }`. Fields are rendered in key order, so
/// fields with distinct keys render alike in any order
/// (`lemma_object_field_order_free`).
#[derive(Debug, PartialEq, Eq)]
pub struct LuaObjectType {
    pub fields: Vec<(LuaMemberKey, LuaType)>,
    pub index_access: Vec<(LuaType, LuaType)>,
}

#[derive(Debug, PartialEq, Eq)]
pub enum VariadicType {
    Base(LuaType),
    Multi(Vec<LuaType>),
}

/// A type of the Lua type system, as the humanizer sees it.
#[derive(Debug, PartialEq, Eq)]
pub enum LuaType {
    Any,
    Nil,
    Boolean,
    Number,
    String,
    Table,
    Function,
    Thread,
    Userdata,
    /// An integer literal type.
    IntegerConst(i64),
    /// A float literal type, held as Rust's shortest text of the value.
    FloatConst(String),
    /// A table literal, by the id of its member owner.
    TableConst(u32),
    Global,
    Def(LuaTypeDeclId),
    Union(Vec<LuaType>),
    Tuple(Vec<LuaType>),
    Unknown,
    Integer,
    Io,
    SelfInfer,
    BooleanConst(bool),
    StringConst(String),
    DocStringConst(String),
    DocIntegerConst(i64),
    DocBooleanConst(bool),
    Ref(LuaTypeDeclId),
    Array(Box<LuaType>),
    Call(LuaAliasCallKind, Vec<LuaType>),
    DocFunction(Box<LuaFunctionType>),
    Object(Box<LuaObjectType>),
    Intersection(Vec<LuaType>),
    Generic(LuaTypeDeclId, Vec<LuaType>),
    TableGeneric(Vec<LuaType>),
    /// A generic template reference: its index among the generic parameters and its name.
    TplRef(u32, String),
    /// `prefix`name`` template reference: prefix, then name.
    StrTplRef(String, String),
    Variadic(Box<VariadicType>),
    Instance(Box<LuaType>),
    Signature(u32),
    Namespace(String),
    MultiLineUnion(Vec<(LuaType, Option<String>)>),
    TypeGuard(Box<LuaType>),
    ConstTplRef(String),
    Language(String),
    Conditional(Box<LuaType>, Box<LuaType>, Box<LuaType>),
    ConditionalInfer(String),
    Never,
    ModuleRef(FileId),
}

// ─── mathematical model ─────────────────────────────────────────────────────

pub enum KeyV {
    NoKey,
    Integer(int),
    Name(Seq<char>),
    ExprType(u64),
}

pub enum OwnerV {
    Type(Seq<char>),
    Element(u32),
}

pub enum TypeV {
    Any,
    Nil,
    Boolean,
    Number,
    String,
    Table,
    Function,
    Thread,
    Userdata,
    IntegerConst(int),
    FloatConst(Seq<char>),
    TableConst(u32),
    Global,
    Def(Seq<char>),
    Union(Seq<TypeV>),
    Tuple(Seq<TypeV>),
    Unknown,
    Integer,
    Io,
    SelfInfer,
    BooleanConst(bool),
    StringConst(Seq<char>),
    DocStringConst(Seq<char>),
    DocIntegerConst(int),
    DocBooleanConst(bool),
    Ref(Seq<char>),
    Array(Box<TypeV>),
    Call(LuaAliasCallKind, Seq<TypeV>),
    DocFunction(AsyncState, Seq<(Seq<char>, Option<TypeV>)>, Box<TypeV>),
    Object(Seq<(KeyV, TypeV)>, Seq<(TypeV, TypeV)>),
    Intersection(Seq<TypeV>),
    Generic(Seq<char>, Seq<TypeV>),
    TableGeneric(Seq<TypeV>),
    TplRef(u32, Seq<char>),
    StrTplRef(Seq<char>, Seq<char>),
    VariadicBase(Box<TypeV>),
    VariadicMulti(Seq<TypeV>),
    Instance(Box<TypeV>),
    Signature(u32),
    Namespace(Seq<char>),
    MultiLineUnion(Seq<(TypeV, Option<Seq<char>>)>),
    TypeGuard(Box<TypeV>),
    ConstTplRef(Seq<char>),
    Language(Seq<char>),
    Conditional(Box<TypeV>, Box<TypeV>, Box<TypeV>),
    ConditionalInfer(Seq<char>),
    Never,
    ModuleRef(u32),
}

impl LuaMemberKey {
    pub open spec fn view(&self) -> KeyV {
        match self {
            LuaMemberKey::NoKey => KeyV::NoKey,
            LuaMemberKey::Integer(i) => KeyV::Integer(*i as int),
            LuaMemberKey::Name(s) => KeyV::Name(s@),
            LuaMemberKey::ExprType(id) => KeyV::ExprType(*id),
        }
    }
}

impl LuaMemberOwner {
    pub open spec fn view(&self) -> OwnerV {
        match self {
            LuaMemberOwner::Type(id) => OwnerV::Type(id.name@),
            LuaMemberOwner::Element(e) => OwnerV::Element(*e),
        }
    }
}

pub open spec fn types_view(s: Seq<LuaType>) -> Seq<TypeV>
    decreases s,
{
    if s.len() == 0 {
        Seq::empty()
    } else {
        types_view(s.drop_last()).push(s.last().view())
    }
}

pub open spec fn params_view(s: Seq<(String, Option<LuaType>)>) -> Seq<(Seq<char>, Option<TypeV>)>
    decreases s,
{
    if s.len() == 0 {
        Seq::empty()
    } else {
        let p = s.last();
        params_view(s.drop_last()).push(
            (
                p.0@,
                match p.1 {
                    Some(t) => Some(t.view()),
                    None => None,
                },
            ),
        )
    }
}

pub open spec fn fields_view(s: Seq<(LuaMemberKey, LuaType)>) -> Seq<(KeyV, TypeV)>
    decreases s,
{
    if s.len() == 0 {
        Seq::empty()
    } else {
        fields_view(s.drop_last()).push((s.last().0.view(), s.last().1.view()))
    }
}

pub open spec fn pairs_view(s: Seq<(LuaType, LuaType)>) -> Seq<(TypeV, TypeV)>
    decreases s,
{
    if s.len() == 0 {
        Seq::empty()
    } else {
        pairs_view(s.drop_last()).push((s.last().0.view(), s.last().1.view()))
    }
}

pub open spec fn described_view(s: Seq<(LuaType, Option<String>)>) -> Seq<(TypeV, Option<Seq<char>>)>
    decreases s,
{
    if s.len() == 0 {
        Seq::empty()
    } else {
        let p = s.last();
        described_view(s.drop_last()).push(
            (
                p.0.view(),
                match p.1 {
                    Some(d) => Some(d@),
                    None => None,
                },
            ),
        )
    }
}

impl LuaType {
    pub open spec fn view(&self) -> TypeV
        decreases self,
    {
        match self {
            LuaType::Any => TypeV::Any,
            LuaType::Nil => TypeV::Nil,
            LuaType::Boolean => TypeV::Boolean,
            LuaType::Number => TypeV::Number,
            LuaType::String => TypeV::String,
            LuaType::Table => TypeV::Table,
            LuaType::Function => TypeV::Function,
            LuaType::Thread => TypeV::Thread,
            LuaType::Userdata => TypeV::Userdata,
            LuaType::IntegerConst(i) => TypeV::IntegerConst(*i as int),
            LuaType::FloatConst(s) => TypeV::FloatConst(s@),
            LuaType::TableConst(e) => TypeV::TableConst(*e),
            LuaType::Global => TypeV::Global,
            LuaType::Def(id) => TypeV::Def(id.name@),
            LuaType::Union(v) => TypeV::Union(types_view(v@)),
            LuaType::Tuple(v) => TypeV::Tuple(types_view(v@)),
            LuaType::Unknown => TypeV::Unknown,
            LuaType::Integer => TypeV::Integer,
            LuaType::Io => TypeV::Io,
            LuaType::SelfInfer => TypeV::SelfInfer,
            LuaType::BooleanConst(b) => TypeV::BooleanConst(*b),
            LuaType::StringConst(s) => TypeV::StringConst(s@),
            LuaType::DocStringConst(s) => TypeV::DocStringConst(s@),
            LuaType::DocIntegerConst(i) => TypeV::DocIntegerConst(*i as int),
            LuaType::DocBooleanConst(b) => TypeV::DocBooleanConst(*b),
            LuaType::Ref(id) => TypeV::Ref(id.name@),
            LuaType::Array(t) => TypeV::Array(Box::new((**t).view())),
            LuaType::Call(k, v) => TypeV::Call(*k, types_view(v@)),
            LuaType::DocFunction(f) => TypeV::DocFunction(
                f.async_state,
                params_view(f.params@),
                Box::new(f.ret.view()),
            ),
            LuaType::Object(o) => TypeV::Object(fields_view(o.fields@), pairs_view(o.index_access@)),
            LuaType::Intersection(v) => TypeV::Intersection(types_view(v@)),
            LuaType::Generic(id, v) => TypeV::Generic(id.name@, types_view(v@)),
            LuaType::TableGeneric(v) => TypeV::TableGeneric(types_view(v@)),
            LuaType::TplRef(i, n) => TypeV::TplRef(*i, n@),
            LuaType::StrTplRef(p, n) => TypeV::StrTplRef(p@, n@),
            LuaType::Variadic(vt) => match &**vt {
                VariadicType::Base(b) => TypeV::VariadicBase(Box::new(b.view())),
                VariadicType::Multi(v) => TypeV::VariadicMulti(types_view(v@)),
            },
            LuaType::Instance(t) => TypeV::Instance(Box::new((**t).view())),
            LuaType::Signature(s) => TypeV::Signature(*s),
            LuaType::Namespace(s) => TypeV::Namespace(s@),
            LuaType::MultiLineUnion(v) => TypeV::MultiLineUnion(described_view(v@)),
            LuaType::TypeGuard(t) => TypeV::TypeGuard(Box::new((**t).view())),
            LuaType::ConstTplRef(s) => TypeV::ConstTplRef(s@),
            LuaType::Language(s) => TypeV::Language(s@),
            LuaType::Conditional(a, b, c) => TypeV::Conditional(
                Box::new((**a).view()),
                Box::new((**b).view()),
                Box::new((**c).view()),
            ),
            LuaType::ConditionalInfer(s) => TypeV::ConditionalInfer(s@),
            LuaType::Never => TypeV::Never,
            LuaType::ModuleRef(f) => TypeV::ModuleRef(f.id),
        }
    }
}

/// The model of a function type.
pub open spec fn function_view(f: LuaFunctionType) -> TypeV {
    TypeV::DocFunction(f.async_state, params_view(f.params@), Box::new(f.ret.view()))
}

/// The model of an object type.
pub open spec fn object_view(o: LuaObjectType) -> TypeV {
    TypeV::Object(fields_view(o.fields@), pairs_view(o.index_access@))
}

/// The model of a variadic type.
pub open spec fn variadic_view(v: VariadicType) -> TypeV {
    match v {
        VariadicType::Base(b) => TypeV::VariadicBase(Box::new(b.view())),
        VariadicType::Multi(ts) => TypeV::VariadicMulti(types_view(ts@)),
    }
}

pub open spec fn is_nil_v(t: TypeV) -> bool {
    t is Nil
}

pub open spec fn is_function_v(t: TypeV) -> bool {
    t is DocFunction || t is Function || t is Signature
}

impl LuaType {
    pub fn is_nil(&self) -> (r: bool)
        ensures
            r == is_nil_v(self.view()),
    {
        match self {
            LuaType::Nil => true,
            _ => false,
        }
    }

    pub fn is_function(&self) -> (r: bool)
        ensures
            r == is_function_v(self.view()),
    {
        match self {
            LuaType::DocFunction(_) => true,
            LuaType::Function => true,
            LuaType::Signature(_) => true,
            _ => false,
        }
    }
}

// ─── facts about the views ──────────────────────────────────────────────────

pub proof fn lemma_types_view(s: Seq<LuaType>)
    ensures
        types_view(s).len() == s.len(),
        forall|i: int| 0 <= i < s.len() ==> #[trigger] types_view(s)[i] == s[i].view(),
    decreases s.len(),
{
    if s.len() > 0 {
        lemma_types_view(s.drop_last());
    }
}

pub proof fn lemma_params_view(s: Seq<(String, Option<LuaType>)>)
    ensures
        params_view(s).len() == s.len(),
        forall|i: int|
            0 <= i < s.len() ==> #[trigger] params_view(s)[i] == (
                s[i].0@,
                match s[i].1 {
                    Some(t) => Some(t.view()),
                    None => None,
                },
            ),
    decreases s.len(),
{
    if s.len() > 0 {
        lemma_params_view(s.drop_last());
    }
}

pub proof fn lemma_fields_view(s: Seq<(LuaMemberKey, LuaType)>)
    ensures
        fields_view(s).len() == s.len(),
        forall|i: int|
            0 <= i < s.len() ==> #[trigger] fields_view(s)[i] == (s[i].0.view(), s[i].1.view()),
    decreases s.len(),
{
    if s.len() > 0 {
        lemma_fields_view(s.drop_last());
    }
}

pub proof fn lemma_pairs_view(s: Seq<(LuaType, LuaType)>)
    ensures
        pairs_view(s).len() == s.len(),
        forall|i: int|
            0 <= i < s.len() ==> #[trigger] pairs_view(s)[i] == (s[i].0.view(), s[i].1.view()),
    decreases s.len(),
{
    if s.len() > 0 {
        lemma_pairs_view(s.drop_last());
    }
}

pub proof fn lemma_described_view(s: Seq<(LuaType, Option<String>)>)
    ensures
        described_view(s).len() == s.len(),
        forall|i: int|
            0 <= i < s.len() ==> #[trigger] described_view(s)[i] == (
                s[i].0.view(),
                match s[i].1 {
                    Some(d) => Some(d@),
                    None => None,
                },
            ),
    decreases s.len(),
{
    if s.len() > 0 {
        lemma_described_view(s.drop_last());
    }
}

/// Whether two keys are the same key.
pub fn key_eq(a: &LuaMemberKey, b: &LuaMemberKey) -> (r: bool)
    ensures
        r == (a.view() == b.view()),
{
    match (a, b) {
        (LuaMemberKey::NoKey, LuaMemberKey::NoKey) => true,
        (LuaMemberKey::Integer(x), LuaMemberKey::Integer(y)) => *x == *y,
        (LuaMemberKey::Name(x), LuaMemberKey::Name(y)) => *x == *y,
        (LuaMemberKey::ExprType(x), LuaMemberKey::ExprType(y)) => *x == *y,
        _ => false,
    }
}

} // verus!
