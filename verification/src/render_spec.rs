use vstd::prelude::*;

use crate::db_index::{find_decl, find_members, find_module, find_sig, DbView};
use crate::file_id::FileId;
use crate::infer_session::InferSessionView;
use crate::key_order::sorted_fields;
use crate::lua_type::{is_function_v, is_nil_v, AsyncState, KeyV, LuaAliasCallKind, OwnerV, TypeV};
use crate::render_level::{display_count_at, items_at, level_after, union_items_at, RenderLevel};
use crate::text::{bool_text, escape_string, int_to_decimal, nat_digits};

verus! {

/// What the text of a rendered type depends on besides the type: the level,
/// the depth reached and its bound, the declarations being expanded, and the
/// module inference session.
pub struct HState {
    pub level: RenderLevel,
    pub depth: u8,
    pub max_depth: u8,
    pub visited: Seq<Seq<char>>,
    pub session: InferSessionView,
}

impl HState {
    pub open spec fn at_level(self, l: RenderLevel) -> HState {
        HState { level: l, ..self }
    }

    pub open spec fn child(self) -> HState {
        self.at_level(level_after(self.level))
    }

    pub open spec fn deeper(self) -> HState {
        HState { depth: (self.depth + 1) as u8, ..self }
    }

    pub open spec fn visiting(self, id: Seq<char>) -> HState {
        HState { visited: self.visited.push(id), ..self }
    }

    pub open spec fn with_session(self, s: InferSessionView) -> HState {
        HState { session: s, ..self }
    }
}

// ─── plain helpers ──────────────────────────────────────────────────────────

/// The first `n` items, or all of them when there are fewer.
pub open spec fn take_n<A>(s: Seq<A>, n: nat) -> Seq<A> {
    if n < s.len() {
        s.take(n as int)
    } else {
        s
    }
}

pub open spec fn join(ks: Seq<Seq<char>>, sep: Seq<char>) -> Seq<char>
    decreases ks.len(),
{
    if ks.len() == 0 {
        Seq::empty()
    } else {
        join(ks.drop_last(), sep) + (if ks.len() > 1 {
            sep
        } else {
            Seq::empty()
        }) + ks.last()
    }
}

pub open spec fn opt_text(b: bool, s: Seq<char>) -> Seq<char> {
    if b {
        s
    } else {
        Seq::empty()
    }
}

pub open spec fn call_kind_name(k: LuaAliasCallKind) -> Seq<char> {
    match k {
        LuaAliasCallKind::Sub => "sub"@,
        LuaAliasCallKind::Add => "add"@,
        LuaAliasCallKind::KeyOf => "keyof"@,
        LuaAliasCallKind::Extends => "extends"@,
        LuaAliasCallKind::Select => "select"@,
        LuaAliasCallKind::Unpack => "unpack"@,
        LuaAliasCallKind::Index => "index"@,
        LuaAliasCallKind::RawGet => "rawget"@,
        LuaAliasCallKind::Merge => "Merge"@,
    }
}

pub open spec fn async_prefix(a: AsyncState) -> Seq<char> {
    match a {
        AsyncState::Plain => "fun"@,
        AsyncState::Async => "async fun"@,
        AsyncState::Sync => "sync fun"@,
    }
}

/// A float literal: Rust's text of the value, with ".0" added when it has no '.'.
pub open spec fn float_text(s: Seq<char>) -> Seq<char> {
    if !s.contains('.') {
        s + ".0"@
    } else {
        s
    }
}

/// Every newline replaced by a space.
pub open spec fn replace_newlines(s: Seq<char>) -> Seq<char> {
    s.map_values(|c: char| if c == '\n' { ' ' } else { c })
}

/// The return type says "returns nothing": it is `nil`, or a variadic whose
/// first type is `nil`.
pub open spec fn returns_nil(t: TypeV) -> bool {
    match t {
        TypeV::VariadicBase(b) => *b is Nil,
        TypeV::VariadicMulti(ts) => ts.len() > 0 && ts[0] is Nil,
        _ => t is Nil,
    }
}

/// The key of a member followed by `": "` (detailed) or `" = "`; keys that
/// are neither names nor integers write nothing.
pub open spec fn key_sep_text(k: KeyV, level: RenderLevel) -> Seq<char> {
    let sep = if level == RenderLevel::Detailed {
        ": "@
    } else {
        " = "@
    };
    match k {
        KeyV::Name(n) => n + sep,
        KeyV::Integer(i) => "["@ + int_to_decimal(i) + "]"@ + sep,
        _ => Seq::empty(),
    }
}

/// In detailed member lists, literal types are announced by their base type.
pub open spec fn const_prefix(t: TypeV) -> Seq<char> {
    match t {
        TypeV::IntegerConst(_) => "integer = "@,
        TypeV::DocIntegerConst(_) => "integer = "@,
        TypeV::FloatConst(_) => "number = "@,
        TypeV::StringConst(_) => "string = "@,
        TypeV::DocStringConst(_) => "string = "@,
        TypeV::BooleanConst(_) => "boolean = "@,
        _ => Seq::empty(),
    }
}

pub open spec fn member_type(t: Option<TypeV>) -> TypeV {
    match t {
        Some(t) => t,
        None => TypeV::Any,
    }
}

/// Members split into the non-function ones (with their types) and the keys
/// of the function ones, both in order.
pub open spec fn split_members(ms: Seq<(KeyV, Option<TypeV>)>) -> (Seq<(KeyV, TypeV)>, Seq<KeyV>)
    decreases ms.len(),
{
    if ms.len() == 0 {
        (Seq::empty(), Seq::empty())
    } else {
        let prev = split_members(ms.drop_last());
        let m = ms.last();
        let t = member_type(m.1);
        if is_function_v(t) {
            (prev.0, prev.1.push(m.0))
        } else {
            (prev.0.push((m.0, t)), prev.1)
        }
    }
}

/// Lines for function members of an expanded type, counting on from `count`
/// and stopping once `maxc` lines are reached.
pub open spec fn function_lines(fv: Seq<KeyV>, parent: RenderLevel, count: nat, maxc: nat) -> (
    Seq<char>,
    nat,
)
    decreases fv.len(),
{
    if fv.len() == 0 {
        (Seq::empty(), count)
    } else {
        let line = "    "@ + key_sep_text(fv[0], parent) + "function,\n"@;
        let c = count + 1;
        if c >= maxc {
            (line, c)
        } else {
            let rest = function_lines(fv.drop_first(), parent, c, maxc);
            (line + rest.0, rest.1)
        }
    }
}

pub open spec fn is_detailed_level(l: RenderLevel) -> bool {
    l is Documentation || l is CustomDetailed || l is Detailed
}

// ─── alias instantiation ────────────────────────────────────────────────────

/// `t` with every template reference `TplRef(i, _)` replaced by `ps[i]`
/// (references past the end of `ps` stay as they are).
pub open spec fn instantiate(t: TypeV, ps: Seq<TypeV>) -> TypeV
    decreases t,
{
    match t {
        TypeV::TplRef(i, n) => if (i as int) < ps.len() {
            ps[i as int]
        } else {
            t
        },
        TypeV::Union(ts) => TypeV::Union(instantiate_all(ts, ps)),
        TypeV::Tuple(ts) => TypeV::Tuple(instantiate_all(ts, ps)),
        TypeV::Array(b) => TypeV::Array(Box::new(instantiate(*b, ps))),
        TypeV::Call(k, ts) => TypeV::Call(k, instantiate_all(ts, ps)),
        TypeV::DocFunction(a, params, r) => TypeV::DocFunction(
            a,
            instantiate_params(params, ps),
            Box::new(instantiate(*r, ps)),
        ),
        TypeV::Object(fs, acc) => TypeV::Object(
            instantiate_fields(fs, ps),
            instantiate_pairs(acc, ps),
        ),
        TypeV::Intersection(ts) => TypeV::Intersection(instantiate_all(ts, ps)),
        TypeV::Generic(id, ts) => TypeV::Generic(id, instantiate_all(ts, ps)),
        TypeV::TableGeneric(ts) => TypeV::TableGeneric(instantiate_all(ts, ps)),
        TypeV::VariadicBase(b) => TypeV::VariadicBase(Box::new(instantiate(*b, ps))),
        TypeV::VariadicMulti(ts) => TypeV::VariadicMulti(instantiate_all(ts, ps)),
        TypeV::Instance(b) => TypeV::Instance(Box::new(instantiate(*b, ps))),
        TypeV::MultiLineUnion(ms) => TypeV::MultiLineUnion(instantiate_described(ms, ps)),
        TypeV::TypeGuard(b) => TypeV::TypeGuard(Box::new(instantiate(*b, ps))),
        TypeV::Conditional(a, b, c) => TypeV::Conditional(
            Box::new(instantiate(*a, ps)),
            Box::new(instantiate(*b, ps)),
            Box::new(instantiate(*c, ps)),
        ),
        _ => t,
    }
}

pub open spec fn instantiate_all(ts: Seq<TypeV>, ps: Seq<TypeV>) -> Seq<TypeV>
    decreases ts,
{
    if ts.len() == 0 {
        Seq::empty()
    } else {
        instantiate_all(ts.drop_last(), ps).push(instantiate(ts.last(), ps))
    }
}

pub open spec fn instantiate_params(
    params: Seq<(Seq<char>, Option<TypeV>)>,
    ps: Seq<TypeV>,
) -> Seq<(Seq<char>, Option<TypeV>)>
    decreases params,
{
    if params.len() == 0 {
        Seq::empty()
    } else {
        let p = params.last();
        instantiate_params(params.drop_last(), ps).push(
            (
                p.0,
                match p.1 {
                    Some(t) => Some(instantiate(t, ps)),
                    None => None,
                },
            ),
        )
    }
}

pub open spec fn instantiate_fields(fs: Seq<(KeyV, TypeV)>, ps: Seq<TypeV>) -> Seq<(KeyV, TypeV)>
    decreases fs,
{
    if fs.len() == 0 {
        Seq::empty()
    } else {
        instantiate_fields(fs.drop_last(), ps).push((fs.last().0, instantiate(fs.last().1, ps)))
    }
}

pub open spec fn instantiate_pairs(fs: Seq<(TypeV, TypeV)>, ps: Seq<TypeV>) -> Seq<(TypeV, TypeV)>
    decreases fs,
{
    if fs.len() == 0 {
        Seq::empty()
    } else {
        instantiate_pairs(fs.drop_last(), ps).push(
            (instantiate(fs.last().0, ps), instantiate(fs.last().1, ps)),
        )
    }
}

pub open spec fn instantiate_described(
    ms: Seq<(TypeV, Option<Seq<char>>)>,
    ps: Seq<TypeV>,
) -> Seq<(TypeV, Option<Seq<char>>)>
    decreases ms,
{
    if ms.len() == 0 {
        Seq::empty()
    } else {
        instantiate_described(ms.drop_last(), ps).push(
            (instantiate(ms.last().0, ps), ms.last().1),
        )
    }
}

// ─── the rendering ──────────────────────────────────────────────────────────

pub struct UnionAcc {
    pub keys: Seq<Seq<char>>,
    pub has_nil: bool,
    pub has_function: bool,
}

/// A type behind the depth guard: `...` once the depth bound is reached.
pub open spec fn r_type(db: DbView, st: HState, t: TypeV) -> Seq<char>
    decreases st.max_depth - st.depth, 0int, 0int, TypeV::Nil,
{
    if st.depth >= st.max_depth {
        "..."@
    } else {
        r_inner(db, st.deeper(), t)
    }
}

/// Once the depth bound is reached every type renders as `...`.
pub proof fn lemma_depth_limit_elides(db: DbView, st: HState, t: TypeV)
    requires
        st.depth >= st.max_depth,
    ensures
        r_type(db, st, t) == "..."@,
{
}

/// The types of `ts`, each behind the depth guard, separated by `sep`.
pub open spec fn r_list(db: DbView, st: HState, ts: Seq<TypeV>, sep: Seq<char>) -> Seq<char>
    decreases st.max_depth - st.depth, 1int, ts.len(), TypeV::Nil,
{
    if ts.len() == 0 {
        Seq::empty()
    } else {
        r_list(db, st, ts.drop_last(), sep) + opt_text(ts.len() > 1, sep) + r_type(
            db,
            st,
            ts.last(),
        )
    }
}

/// The distinct texts of the non-nil members of a union, in order, and whether
/// a nil or a function member was seen.
pub open spec fn r_union_collect(db: DbView, st: HState, ts: Seq<TypeV>) -> UnionAcc
    decreases st.max_depth - st.depth, 1int, ts.len(), TypeV::Nil,
{
    if ts.len() == 0 {
        UnionAcc { keys: Seq::empty(), has_nil: false, has_function: false }
    } else {
        let a = r_union_collect(db, st, ts.drop_last());
        let t = ts.last();
        if is_nil_v(t) {
            UnionAcc { has_nil: true, ..a }
        } else {
            let key = r_type(db, st, t);
            UnionAcc {
                keys: if a.keys.contains(key) {
                    a.keys
                } else {
                    a.keys.push(key)
                },
                has_nil: a.has_nil,
                has_function: a.has_function || is_function_v(t),
            }
        }
    }
}

/// The texts collected for a union are distinct, and they are exactly the
/// texts of its non-nil members.
pub proof fn lemma_union_texts_distinct(db: DbView, st: HState, ts: Seq<TypeV>)
    ensures
        r_union_collect(db, st, ts).keys.no_duplicates(),
        forall|i: int|
            0 <= i < ts.len() && !is_nil_v(ts[i]) ==> r_union_collect(db, st, ts).keys.contains(
                #[trigger] r_type(db, st, ts[i]),
            ),
        forall|k: Seq<char>| #[trigger]
            r_union_collect(db, st, ts).keys.contains(k) ==> exists|i: int|
                0 <= i < ts.len() && !is_nil_v(ts[i]) && r_type(db, st, ts[i]) == k,
    decreases ts.len(),
{
    if ts.len() > 0 {
        let prev = ts.drop_last();
        lemma_union_texts_distinct(db, st, prev);
        let a = r_union_collect(db, st, prev);
        let r = r_union_collect(db, st, ts);
        assert forall|i: int|
            0 <= i < ts.len() && !is_nil_v(ts[i]) implies r.keys.contains(
                #[trigger] r_type(db, st, ts[i]),
            ) by {
            if i < ts.len() - 1 {
                assert(prev[i] == ts[i]);
                let k = r_type(db, st, ts[i]);
                assert(a.keys.contains(k));
                if !is_nil_v(ts.last()) && !a.keys.contains(r_type(db, st, ts.last())) {
                    let j = choose|j: int| 0 <= j < a.keys.len() && a.keys[j] == k;
                    assert(r.keys[j] == k);
                }
            } else {
                let k = r_type(db, st, ts.last());
                if !a.keys.contains(k) {
                    assert(r.keys[a.keys.len() as int] == k);
                }
            }
        }
        assert forall|k: Seq<char>| #[trigger] r.keys.contains(k) implies exists|i: int|
            0 <= i < ts.len() && !is_nil_v(ts[i]) && r_type(db, st, ts[i]) == k by {
            let j = choose|j: int| 0 <= j < r.keys.len() && r.keys[j] == k;
            if j < a.keys.len() {
                assert(a.keys[j] == k);
                assert(a.keys.contains(k));
                let i = choose|i: int|
                    0 <= i < prev.len() && !is_nil_v(prev[i]) && r_type(db, st, prev[i]) == k;
                assert(ts[i] == prev[i]);
            } else {
                assert(k == r_type(db, st, ts.last()));
                assert(ts[ts.len() - 1] == ts.last());
            }
        }
    }
}

pub open spec fn r_union(db: DbView, st: HState, ts: Seq<TypeV>) -> Seq<char>
    decreases st.max_depth - st.depth, 5int, 0int, TypeV::Nil,
{
    let num = union_items_at(st.level);
    let a = r_union_collect(db, st.child(), ts);
    let total = a.keys.len();
    let parens = total > 1 || (total == 1 && a.has_function && a.has_nil);
    opt_text(parens, "("@) + join(take_n(a.keys, num), "|"@) + opt_text(total > num, "..."@)
        + opt_text(parens, ")"@) + opt_text(a.has_nil, "?"@)
}

pub open spec fn r_ml_lines(db: DbView, st: HState, ms: Seq<(TypeV, Option<Seq<char>>)>) -> Seq<
    char,
>
    decreases st.max_depth - st.depth, 1int, ms.len(), TypeV::Nil,
{
    if ms.len() == 0 {
        Seq::empty()
    } else {
        let m = ms.last();
        r_ml_lines(db, st, ms.drop_last()) + "    | "@ + r_type(db, st, m.0) + match m.1 {
            Some(d) => " -- "@ + replace_newlines(d),
            None => Seq::empty(),
        } + "\n"@
    }
}

pub open spec fn described_types(ms: Seq<(TypeV, Option<Seq<char>>)>) -> Seq<TypeV> {
    ms.map_values(|m: (TypeV, Option<Seq<char>>)| m.0)
}

pub open spec fn r_multi_line_union(
    db: DbView,
    st: HState,
    ms: Seq<(TypeV, Option<Seq<char>>)>,
) -> Seq<char>
    decreases st.max_depth - st.depth, 5int, 0int, TypeV::Nil,
{
    let num = items_at(st.level);
    "("@ + r_list(db, st.child(), take_n(described_types(ms), num), "|"@) + opt_text(
        ms.len() > num,
        "..."@,
    ) + ")"@ + if st.level != RenderLevel::Detailed {
        Seq::empty()
    } else {
        "\n"@ + r_ml_lines(db, st.at_level(RenderLevel::Minimal), ms)
    }
}

/// A sequence of `(items, ", ...")`-bounded types between an opening and a closing text.
pub open spec fn r_bounded(
    db: DbView,
    st: HState,
    ts: Seq<TypeV>,
    open: Seq<char>,
    sep: Seq<char>,
    dots: Seq<char>,
    close: Seq<char>,
) -> Seq<char>
    decreases st.max_depth - st.depth, 4int, 0int, TypeV::Nil,
{
    let num = items_at(st.level);
    open + r_list(db, st.child(), take_n(ts, num), sep) + opt_text(ts.len() > num, dots) + close
}

pub open spec fn r_params(db: DbView, st: HState, ps: Seq<(Seq<char>, Option<TypeV>)>) -> Seq<char>
    decreases st.max_depth - st.depth, 1int, ps.len(), TypeV::Nil,
{
    if ps.len() == 0 {
        Seq::empty()
    } else {
        let p = ps.last();
        r_params(db, st, ps.drop_last()) + opt_text(ps.len() > 1, ", "@) + p.0 + match p.1 {
            Some(t) => ": "@ + r_type(db, st, t),
            None => Seq::empty(),
        }
    }
}

pub open spec fn r_doc_function(
    db: DbView,
    st: HState,
    a: AsyncState,
    ps: Seq<(Seq<char>, Option<TypeV>)>,
    ret: TypeV,
) -> Seq<char>
    decreases st.max_depth - st.depth, 5int, 0int, TypeV::Nil,
{
    if st.level == RenderLevel::Minimal {
        "fun(...) -> ..."@
    } else {
        async_prefix(a) + "("@ + r_params(db, st.child(), ps) + ")"@ + if returns_nil(ret) {
            Seq::empty()
        } else {
            " -> "@ + r_type(db, st.child(), ret)
        }
    }
}

pub open spec fn r_fields(db: DbView, st: HState, fs: Seq<(KeyV, TypeV)>) -> Seq<char>
    decreases st.max_depth - st.depth, 1int, fs.len(), TypeV::Nil,
{
    if fs.len() == 0 {
        Seq::empty()
    } else {
        let f = fs.last();
        r_fields(db, st, fs.drop_last()) + opt_text(fs.len() > 1, ", "@) + match f.0 {
            KeyV::Integer(i) => "["@ + int_to_decimal(i) + "]: "@ + r_type(db, st, f.1),
            KeyV::Name(s) => s + ": "@ + r_type(db, st, f.1),
            _ => r_type(db, st, f.1),
        }
    }
}

pub open spec fn r_access(db: DbView, st: HState, acc: Seq<(TypeV, TypeV)>) -> Seq<char>
    decreases st.max_depth - st.depth, 1int, acc.len(), TypeV::Nil,
{
    if acc.len() == 0 {
        Seq::empty()
    } else {
        let p = acc.last();
        r_access(db, st, acc.drop_last()) + opt_text(acc.len() > 1, ","@) + "["@ + r_type(
            db,
            st,
            p.0,
        ) + "]: "@ + r_type(db, st, p.1)
    }
}

pub open spec fn r_object(
    db: DbView,
    st: HState,
    fs: Seq<(KeyV, TypeV)>,
    acc: Seq<(TypeV, TypeV)>,
) -> Seq<char>
    decreases st.max_depth - st.depth, 5int, 0int, TypeV::Nil,
{
    if st.level == RenderLevel::Minimal {
        "{...}"@
    } else {
        let num = items_at(st.level);
        "{ "@ + r_fields(db, st.child(), take_n(sorted_fields(fs), num)) + opt_text(
            acc.len() > 0,
            opt_text(fs.len() > 0, ", "@) + r_access(db, st.child(), acc),
        ) + opt_text(fs.len() > num, ", ..."@) + " }"@
    }
}

/// An object whose fields have distinct keys renders the same whatever
/// order the fields are listed in.
pub proof fn lemma_object_field_order_free(
    db: DbView,
    st: HState,
    fs1: Seq<(KeyV, TypeV)>,
    fs2: Seq<(KeyV, TypeV)>,
    acc: Seq<(TypeV, TypeV)>,
)
    requires
        crate::key_order::field_keys(fs1).no_duplicates(),
        crate::key_order::field_keys(fs2).no_duplicates(),
        forall|x: (KeyV, TypeV)| fs1.contains(x) <==> fs2.contains(x),
    ensures
        r_object(db, st, fs1, acc) == r_object(db, st, fs2, acc),
        r_type(db, st, TypeV::Object(fs1, acc)) == r_type(db, st, TypeV::Object(fs2, acc)),
{
    crate::key_order::lemma_sorted_fields_order_free(fs1, fs2);
    if st.depth < st.max_depth {
        assert(r_object(db, st.deeper(), fs1, acc) == r_object(db, st.deeper(), fs2, acc));
    }
}

/// A member written as `key<sep>` then its type; detailed lists announce literals.
pub open spec fn r_field(db: DbView, st: HState, k: KeyV, t: TypeV, parent: RenderLevel) -> Seq<
    char,
>
    decreases st.max_depth - st.depth, 2int, 0int, TypeV::Nil,
{
    key_sep_text(k, parent) + opt_text(parent == RenderLevel::Detailed, const_prefix(t)) + r_type(
        db,
        st,
        t,
    )
}

/// Lines of the non-function members of an expanded type, counting on from
/// `count` and stopping once `maxc` lines are reached.
pub open spec fn r_member_lines(
    db: DbView,
    st: HState,
    parent: RenderLevel,
    mv: Seq<(KeyV, TypeV)>,
    count: nat,
    maxc: nat,
) -> (Seq<char>, nat)
    decreases st.max_depth - st.depth, 3int, mv.len(), TypeV::Nil,
{
    if mv.len() == 0 {
        (Seq::empty(), count)
    } else {
        let line = "    "@ + r_field(db, st, mv[0].0, mv[0].1, parent) + ",\n"@;
        let c = count + 1;
        if c >= maxc {
            (line, c)
        } else {
            let rest = r_member_lines(db, st, parent, mv.drop_first(), c, maxc);
            (line + rest.0, rest.1)
        }
    }
}

/// The expanded `name { fields }` view of a declared type. The flag is false
/// when the caller should write the plain name instead.
pub open spec fn r_simple(db: DbView, st: HState, id: Seq<char>, name: Seq<char>) -> (
    bool,
    Seq<char>,
)
    decreases st.max_depth - st.depth, 6int, 0int, TypeV::Nil,
{
    match display_count_at(st.level) {
        None => (true, name),
        Some(maxc) => if st.visited.contains(id) {
            (true, name)
        } else {
            match find_members(db.members, OwnerV::Type(id)) {
                None => (false, Seq::empty()),
                Some(ms) => {
                    let sp = split_members(ms);
                    let mv = sp.0;
                    let fv = sp.1;
                    if mv.len() == 0 && fv.len() == 0 {
                        (true, name)
                    } else {
                        let all = mv.len() + fv.len();
                        let st2 = st.visiting(id).child();
                        let part1 = r_member_lines(db, st2, st.level, mv, 0, maxc);
                        let part2 = if part1.1 < all {
                            function_lines(fv, st.level, part1.1, maxc)
                        } else {
                            (Seq::empty(), part1.1)
                        };
                        (
                            true,
                            name + " {\n"@ + part1.0 + part2.0 + opt_text(
                                part2.1 >= maxc,
                                "    ...(+"@ + nat_digits((all - maxc) as nat, 10) + ")\n"@,
                            ) + "}"@,
                        )
                    }
                },
            }
        },
    }
}

pub open spec fn r_ref(db: DbView, st: HState, id: Seq<char>) -> Seq<char>
    decreases st.max_depth - st.depth, 7int, 0int, TypeV::Nil,
{
    match find_decl(db.decls, id) {
        Some(d) => {
            let s = r_simple(db, st, id, d.full_name);
            if s.0 {
                s.1
            } else {
                d.full_name
            }
        },
        None => id,
    }
}

pub open spec fn r_def(db: DbView, st: HState, id: Seq<char>) -> Seq<char>
    decreases st.max_depth - st.depth, 7int, 0int, TypeV::Nil,
{
    match find_decl(db.decls, id) {
        None => id,
        Some(d) => match d.generic_params {
            None => {
                let s = r_simple(db, st, id, d.full_name);
                if s.0 {
                    s.1
                } else {
                    d.full_name
                }
            },
            Some(gs) => d.full_name + "<"@ + join(gs, ", "@) + ">"@,
        },
    }
}

pub open spec fn r_generic(db: DbView, st: HState, id: Seq<char>, ps: Seq<TypeV>) -> Seq<char>
    decreases st.max_depth - st.depth, 5int, 0int, TypeV::Nil,
{
    match find_decl(db.decls, id) {
        None => id,
        Some(d) => d.full_name + "<"@ + r_list(db, st.child(), ps, ","@) + ">"@ + if is_detailed_level(
            st.level,
        ) && d.is_alias && !st.visited.contains(id) {
            match d.alias_origin {
                Some(o) => " = "@ + r_type(db, st.visiting(id).child(), instantiate(o, ps)),
                None => Seq::empty(),
            }
        } else {
            Seq::empty()
        },
    }
}

pub open spec fn r_tc_lines(
    db: DbView,
    st: HState,
    parent: RenderLevel,
    ms: Seq<(KeyV, Option<TypeV>)>,
    line: nat,
) -> Seq<char>
    decreases st.max_depth - st.depth, 3int, ms.len(), TypeV::Nil,
{
    if ms.len() == 0 {
        Seq::empty()
    } else {
        "    "@ + r_field(db, st, ms[0].0, member_type(ms[0].1), parent) + ",\n"@ + if line + 1
            >= 12 {
            "    ...\n"@
        } else {
            r_tc_lines(db, st, parent, ms.drop_first(), line + 1)
        }
    }
}

pub open spec fn r_tc_simple(
    db: DbView,
    st: HState,
    parent: RenderLevel,
    ms: Seq<(KeyV, Option<TypeV>)>,
    first: bool,
    total: nat,
) -> Seq<char>
    decreases st.max_depth - st.depth, 3int, ms.len(), TypeV::Nil,
{
    if ms.len() == 0 {
        Seq::empty()
    } else {
        let tmp = r_field(db, st, ms[0].0, member_type(ms[0].1), parent);
        let total2 = total + (if first {
            0nat
        } else {
            2nat
        }) + tmp.len();
        opt_text(!first, ", "@) + tmp + if total2 > 54 {
            ", ..."@
        } else {
            r_tc_simple(db, st, parent, ms.drop_first(), false, total2)
        }
    }
}

/// A table literal at the detailed or simple level, from its members.
pub open spec fn r_tc_members(db: DbView, st: HState, ms: Seq<(KeyV, Option<TypeV>)>) -> Seq<char>
    decreases st.max_depth - st.depth, 4int, 0int, TypeV::Nil,
{
    if st.level == RenderLevel::Detailed {
        "{\n"@ + r_tc_lines(db, st.child(), st.level, ms, 0) + "}"@
    } else {
        "{ "@ + r_tc_simple(db, st.child(), st.level, ms, true, 0) + " }"@
    }
}

pub open spec fn r_table_const(db: DbView, st: HState, e: u32) -> Seq<char>
    decreases st.max_depth - st.depth, 5int, 0int, TypeV::Nil,
{
    if st.level == RenderLevel::Detailed || st.level == RenderLevel::Simple {
        match find_members(db.members, OwnerV::Element(e)) {
            None => "table"@,
            Some(ms) => r_tc_members(db, st, ms),
        }
    } else {
        "table"@
    }
}

pub open spec fn r_sig_params(
    db: DbView,
    st: HState,
    ps: Seq<(Seq<char>, Option<TypeV>)>,
    vararg: bool,
    n: nat,
) -> Seq<char>
    decreases st.max_depth - st.depth, 1int, ps.len(), TypeV::Nil,
{
    if ps.len() == 0 {
        Seq::empty()
    } else {
        let p = ps.last();
        r_sig_params(db, st, ps.drop_last(), vararg, n) + opt_text(ps.len() > 1, ", "@) + opt_text(
            ps.len() == n && vararg,
            "..."@,
        ) + p.0 + match p.1 {
            Some(t) => ": "@ + r_type(db, st, t),
            None => Seq::empty(),
        }
    }
}

/// Signature parameters before the last are written exactly like function
/// parameters: the vararg marker can only stand before the last one.
pub proof fn lemma_sig_params_before_last(
    db: DbView,
    st: HState,
    ps: Seq<(Seq<char>, Option<TypeV>)>,
    vararg: bool,
    n: nat,
)
    requires
        ps.len() < n || !vararg,
    ensures
        r_sig_params(db, st, ps, vararg, n) == r_params(db, st, ps),
    decreases ps.len(),
{
    if ps.len() > 0 {
        lemma_sig_params_before_last(db, st, ps.drop_last(), vararg, n);
    }
}

/// The text of a parameter list written like function parameters, with `...`
/// put right before the last parameter's name when `vararg` holds.
pub open spec fn vararg_params_text(
    db: DbView,
    st: HState,
    ps: Seq<(Seq<char>, Option<TypeV>)>,
    vararg: bool,
) -> Seq<char> {
    if vararg && ps.len() > 0 {
        let p = ps.last();
        r_params(db, st, ps.drop_last()) + opt_text(ps.len() > 1, ", "@) + "..."@ + p.0 + match p.1 {
            Some(t) => ": "@ + r_type(db, st, t),
            None => Seq::empty(),
        }
    } else {
        r_params(db, st, ps)
    }
}

/// The parameters of a signature read as function parameters, the last one
/// of a vararg signature marked with `...` before its name, between the
/// `fun`/`fun<generics>` head and the return part.
pub proof fn lemma_signature_params(db: DbView, st: HState, id: u32) -> (rest: Seq<char>)
    requires
        st.level != RenderLevel::Minimal,
        find_sig(db.sigs, id) is Some,
    ensures
        r_signature(db, st, id) == (if find_sig(db.sigs, id)->0.generic_params.len() > 0 {
            "fun<"@ + join(find_sig(db.sigs, id)->0.generic_params, ", "@) + ">"@
        } else {
            "fun"@
        }) + "("@ + vararg_params_text(
            db,
            st.child(),
            find_sig(db.sigs, id)->0.params,
            find_sig(db.sigs, id)->0.is_vararg,
        ) + ")"@ + rest,
{
    let sig = find_sig(db.sigs, id)->0;
    let ps = sig.params;
    let c = st.child();
    if sig.is_vararg && ps.len() > 0 {
        lemma_sig_params_before_last(db, c, ps.drop_last(), true, ps.len());
    } else {
        lemma_sig_params_before_last(db, c, ps, sig.is_vararg, ps.len() + 1);
        if !sig.is_vararg {
            lemma_sig_params_before_last(db, c, ps, false, ps.len());
        }
    }
    assert(r_sig_params(db, c, ps, sig.is_vararg, ps.len()) == vararg_params_text(
        db,
        c,
        ps,
        sig.is_vararg,
    ));
    let head = if sig.generic_params.len() > 0 {
        "fun<"@ + join(sig.generic_params, ", "@) + ">"@
    } else {
        "fun"@
    };
    let rest = if returns_nil(sig.return_type) || sig.return_docs.len() == 0 {
        Seq::empty()
    } else {
        " -> "@ + r_list(db, c, sig.return_docs, ","@)
    };
    assert(r_signature(db, st, id) == head + "("@ + vararg_params_text(db, c, ps, sig.is_vararg)
        + ")"@ + rest);
    rest
}

pub open spec fn r_signature(db: DbView, st: HState, id: u32) -> Seq<char>
    decreases st.max_depth - st.depth, 5int, 0int, TypeV::Nil,
{
    if st.level == RenderLevel::Minimal {
        "fun(...) -> ..."@
    } else {
        match find_sig(db.sigs, id) {
            None => "unknown"@,
            Some(sig) => (if sig.generic_params.len() > 0 {
                "fun<"@ + join(sig.generic_params, ", "@) + ">"@
            } else {
                "fun"@
            }) + "("@ + r_sig_params(
                db,
                st.child(),
                sig.params,
                sig.is_vararg,
                sig.params.len(),
            ) + ")"@ + if returns_nil(sig.return_type) || sig.return_docs.len() == 0 {
                Seq::empty()
            } else {
                " -> "@ + r_list(db, st.child(), sig.return_docs, ","@)
            },
        }
    }
}

pub open spec fn r_module_ref(db: DbView, st: HState, f: u32) -> Seq<char>
    decreases st.max_depth - st.depth, 5int, 0int, TypeV::Nil,
{
    let fid = FileId { id: f };
    if st.session.rejects(fid) {
        "module 'recursive'"@
    } else {
        match find_module(db.modules, f) {
            Some(Some(e)) => r_type(db, st.with_session(st.session.after_enter(fid)), e),
            _ => "module 'unknown'"@,
        }
    }
}

/// The text of a type without the depth guard.
pub open spec fn r_inner(db: DbView, st: HState, t: TypeV) -> Seq<char>
    decreases st.max_depth - st.depth, 20int, 0int, t,
{
    match t {
        TypeV::Any => "any"@,
        TypeV::Nil => "nil"@,
        TypeV::Boolean => "boolean"@,
        TypeV::Number => "number"@,
        TypeV::String => "string"@,
        TypeV::Table => "table"@,
        TypeV::Function => "function"@,
        TypeV::Thread => "thread"@,
        TypeV::Userdata => "userdata"@,
        TypeV::IntegerConst(i) => int_to_decimal(i),
        TypeV::FloatConst(s) => float_text(s),
        TypeV::TableConst(e) => r_table_const(db, st, e),
        TypeV::Global => "global"@,
        TypeV::Def(id) => r_def(db, st, id),
        TypeV::Union(ts) => r_union(db, st, ts),
        TypeV::Tuple(ts) => r_bounded(db, st, ts, "("@, ","@, "..."@, ")"@),
        TypeV::Unknown => "unknown"@,
        TypeV::Integer => "integer"@,
        TypeV::Io => "io"@,
        TypeV::SelfInfer => "self"@,
        TypeV::BooleanConst(b) => bool_text(b),
        TypeV::StringConst(s) => "\""@ + escape_string(s) + "\""@,
        TypeV::DocStringConst(s) => "\""@ + escape_string(s) + "\""@,
        TypeV::DocIntegerConst(i) => int_to_decimal(i),
        TypeV::DocBooleanConst(b) => bool_text(b),
        TypeV::Ref(id) => r_ref(db, st, id),
        TypeV::Array(b) => r_type(db, st.child(), *b) + "[]"@,
        TypeV::Call(k, ts) => call_kind_name(k) + "<"@ + r_list(db, st.child(), ts, ","@) + ">"@,
        TypeV::DocFunction(a, ps, r) => r_doc_function(db, st, a, ps, *r),
        TypeV::Object(fs, acc) => r_object(db, st, fs, acc),
        TypeV::Intersection(ts) => r_bounded(db, st, ts, "("@, " & "@, ", ..."@, ")"@),
        TypeV::Generic(id, ps) => r_generic(db, st, id, ps),
        TypeV::TableGeneric(ps) => if st.level == RenderLevel::Minimal {
            "table<...>"@
        } else {
            r_bounded(db, st, ps, "table<"@, ","@, ", ..."@, ">"@)
        },
        TypeV::TplRef(_, n) => n,
        TypeV::StrTplRef(p, n) => if p.len() == 0 {
            n
        } else {
            p + "`"@ + n + "`"@
        },
        TypeV::VariadicBase(b) => r_type(db, st, *b) + " ..."@,
        TypeV::VariadicMulti(ts) => if st.level == RenderLevel::Minimal {
            "multi<...>"@
        } else {
            r_bounded(db, st, ts, "("@, ","@, ", ..."@, ")"@)
        },
        TypeV::Instance(b) => r_inner(db, st, *b),
        TypeV::Signature(id) => r_signature(db, st, id),
        TypeV::Namespace(ns) => "{ "@ + ns + " }"@,
        TypeV::MultiLineUnion(ms) => r_multi_line_union(db, st, ms),
        TypeV::TypeGuard(b) => "TypeGuard<"@ + r_type(db, st.child(), *b) + ">"@,
        TypeV::ConstTplRef(n) => n,
        TypeV::Language(s) => s,
        TypeV::Conditional(c, a, b) => r_type(db, st.child(), *c) + " and "@ + r_type(
            db,
            st.child(),
            *a,
        ) + " or "@ + r_type(db, st.child(), *b),
        TypeV::ConditionalInfer(s) => s,
        TypeV::Never => "never"@,
        TypeV::ModuleRef(f) => r_module_ref(db, st, f),
    }
}

} // verus!
