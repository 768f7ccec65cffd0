use vstd::prelude::*;

use crate::lua_type::{
    described_view, fields_view, lemma_described_view, lemma_fields_view, lemma_pairs_view,
    lemma_params_view, lemma_types_view, pairs_view, params_view, types_view, LuaFunctionType,
    LuaMemberKey, LuaObjectType, LuaType, TypeV, VariadicType,
};
use crate::render_spec::{
    instantiate, instantiate_all, instantiate_described, instantiate_fields, instantiate_pairs,
    instantiate_params,
};

verus! {

// ─── instantiating with no parameters changes nothing ───────────────────────

/// Instantiating a type with no arguments leaves it as it is.
pub proof fn lemma_instantiate_nothing(t: TypeV)
    ensures
        instantiate(t, Seq::empty()) == t,
    decreases t,
{
    let e = Seq::<TypeV>::empty();
    match t {
        TypeV::Union(ts) => lemma_instantiate_all_nothing(ts),
        TypeV::Tuple(ts) => lemma_instantiate_all_nothing(ts),
        TypeV::Array(b) => lemma_instantiate_nothing(*b),
        TypeV::Call(_, ts) => lemma_instantiate_all_nothing(ts),
        TypeV::DocFunction(_, ps, r) => {
            lemma_instantiate_params_nothing(ps);
            lemma_instantiate_nothing(*r);
        },
        TypeV::Object(fs, acc) => {
            lemma_instantiate_fields_nothing(fs);
            lemma_instantiate_pairs_nothing(acc);
        },
        TypeV::Intersection(ts) => lemma_instantiate_all_nothing(ts),
        TypeV::Generic(_, ts) => lemma_instantiate_all_nothing(ts),
        TypeV::TableGeneric(ts) => lemma_instantiate_all_nothing(ts),
        TypeV::VariadicBase(b) => lemma_instantiate_nothing(*b),
        TypeV::VariadicMulti(ts) => lemma_instantiate_all_nothing(ts),
        TypeV::Instance(b) => lemma_instantiate_nothing(*b),
        TypeV::MultiLineUnion(ms) => lemma_instantiate_described_nothing(ms),
        TypeV::TypeGuard(b) => lemma_instantiate_nothing(*b),
        TypeV::Conditional(a, b, c) => {
            lemma_instantiate_nothing(*a);
            lemma_instantiate_nothing(*b);
            lemma_instantiate_nothing(*c);
        },
        _ => {},
    }
}

/// The same, for a list of types.
pub proof fn lemma_instantiate_all_nothing(ts: Seq<TypeV>)
    ensures
        instantiate_all(ts, Seq::empty()) == ts,
    decreases ts,
{
    if ts.len() > 0 {
        lemma_instantiate_all_nothing(ts.drop_last());
        lemma_instantiate_nothing(ts.last());
        assert(ts.drop_last().push(ts.last()) =~= ts);
    }
}

/// The same, for function parameters.
pub proof fn lemma_instantiate_params_nothing(ps: Seq<(Seq<char>, Option<TypeV>)>)
    ensures
        instantiate_params(ps, Seq::empty()) == ps,
    decreases ps,
{
    if ps.len() > 0 {
        lemma_instantiate_params_nothing(ps.drop_last());
        match ps.last().1 {
            Some(t) => lemma_instantiate_nothing(t),
            None => {},
        }
        assert(ps.drop_last().push(ps.last()) =~= ps);
    }
}

/// The same, for object fields.
pub proof fn lemma_instantiate_fields_nothing(fs: Seq<(crate::lua_type::KeyV, TypeV)>)
    ensures
        instantiate_fields(fs, Seq::empty()) == fs,
    decreases fs,
{
    if fs.len() > 0 {
        lemma_instantiate_fields_nothing(fs.drop_last());
        lemma_instantiate_nothing(fs.last().1);
        assert(fs.drop_last().push(fs.last()) =~= fs);
    }
}

/// The same, for index accesses.
pub proof fn lemma_instantiate_pairs_nothing(fs: Seq<(TypeV, TypeV)>)
    ensures
        instantiate_pairs(fs, Seq::empty()) == fs,
    decreases fs,
{
    if fs.len() > 0 {
        lemma_instantiate_pairs_nothing(fs.drop_last());
        lemma_instantiate_nothing(fs.last().0);
        lemma_instantiate_nothing(fs.last().1);
        assert(fs.drop_last().push(fs.last()) =~= fs);
    }
}

/// The same, for described union members.
pub proof fn lemma_instantiate_described_nothing(ms: Seq<(TypeV, Option<Seq<char>>)>)
    ensures
        instantiate_described(ms, Seq::empty()) == ms,
    decreases ms,
{
    if ms.len() > 0 {
        lemma_instantiate_described_nothing(ms.drop_last());
        lemma_instantiate_nothing(ms.last().0);
        assert(ms.drop_last().push(ms.last()) =~= ms);
    }
}

// ─── executable instantiation ───────────────────────────────────────────────

/// A copy of `ty` with every template reference `TplRef(i, _)` replaced by
/// `params[i]`; references past the end of `params` stay.
pub fn instantiate_type(ty: &LuaType, params: &Vec<LuaType>) -> (r: LuaType)
    ensures
        r.view() == instantiate(ty.view(), types_view(params@)),
    decreases params@.len(), ty.view(),
{
    let ghost v = ty.view();
    match ty {
        LuaType::Any => LuaType::Any,
        LuaType::Nil => LuaType::Nil,
        LuaType::Boolean => LuaType::Boolean,
        LuaType::Number => LuaType::Number,
        LuaType::String => LuaType::String,
        LuaType::Table => LuaType::Table,
        LuaType::Function => LuaType::Function,
        LuaType::Thread => LuaType::Thread,
        LuaType::Userdata => LuaType::Userdata,
        LuaType::IntegerConst(i) => LuaType::IntegerConst(*i),
        LuaType::FloatConst(s) => LuaType::FloatConst(s.clone()),
        LuaType::TableConst(e) => LuaType::TableConst(*e),
        LuaType::Global => LuaType::Global,
        LuaType::Def(id) => LuaType::Def(crate::lua_type::LuaTypeDeclId { name: id.name.clone() }),
        LuaType::Union(ts) => {
            proof {
                assert(decreases_to!(v => v->Union_0));
            }
            LuaType::Union(instantiate_types(ts, params))
        },
        LuaType::Tuple(ts) => {
            proof {
                assert(decreases_to!(v => v->Tuple_0));
            }
            LuaType::Tuple(instantiate_types(ts, params))
        },
        LuaType::Unknown => LuaType::Unknown,
        LuaType::Integer => LuaType::Integer,
        LuaType::Io => LuaType::Io,
        LuaType::SelfInfer => LuaType::SelfInfer,
        LuaType::BooleanConst(b) => LuaType::BooleanConst(*b),
        LuaType::StringConst(s) => LuaType::StringConst(s.clone()),
        LuaType::DocStringConst(s) => LuaType::DocStringConst(s.clone()),
        LuaType::DocIntegerConst(i) => LuaType::DocIntegerConst(*i),
        LuaType::DocBooleanConst(b) => LuaType::DocBooleanConst(*b),
        LuaType::Ref(id) => LuaType::Ref(crate::lua_type::LuaTypeDeclId { name: id.name.clone() }),
        LuaType::Array(b) => {
            proof {
                assert(decreases_to!(v => v->Array_0));
            }
            LuaType::Array(Box::new(instantiate_type(b, params)))
        },
        LuaType::Call(k, ts) => {
            proof {
                assert(decreases_to!(v => v->Call_1));
            }
            LuaType::Call(*k, instantiate_types(ts, params))
        },
        LuaType::DocFunction(f) => {
            proof {
                assert(decreases_to!(v => v->DocFunction_1));
                assert(decreases_to!(v => v->DocFunction_2));
            }
            let ps = instantiate_param_list(&f.params, params);
            let ret = instantiate_type(&f.ret, params);
            LuaType::DocFunction(Box::new(LuaFunctionType { async_state: f.async_state, params: ps, ret }))
        },
        LuaType::Object(o) => {
            proof {
                assert(decreases_to!(v => v->Object_0));
                assert(decreases_to!(v => v->Object_1));
            }
            let fields = instantiate_field_list(&o.fields, params);
            let index_access = instantiate_pair_list(&o.index_access, params);
            LuaType::Object(Box::new(LuaObjectType { fields, index_access }))
        },
        LuaType::Intersection(ts) => {
            proof {
                assert(decreases_to!(v => v->Intersection_0));
            }
            LuaType::Intersection(instantiate_types(ts, params))
        },
        LuaType::Generic(id, ts) => {
            proof {
                assert(decreases_to!(v => v->Generic_1));
            }
            LuaType::Generic(
                crate::lua_type::LuaTypeDeclId { name: id.name.clone() },
                instantiate_types(ts, params),
            )
        },
        LuaType::TableGeneric(ts) => {
            proof {
                assert(decreases_to!(v => v->TableGeneric_0));
            }
            LuaType::TableGeneric(instantiate_types(ts, params))
        },
        LuaType::TplRef(i, n) => {
            proof {
                lemma_types_view(params@);
            }
            if (*i as usize) < params.len() {
                proof {
                    lemma_types_view(params@);
                    lemma_instantiate_nothing(params@[*i as int].view());
                    lemma_types_view(Seq::<LuaType>::empty());
                }
                let none: Vec<LuaType> = Vec::new();
                proof {
                    assert(types_view(none@) =~= Seq::<TypeV>::empty());
                }
                instantiate_type(&params[*i as usize], &none)
            } else {
                LuaType::TplRef(*i, n.clone())
            }
        },
        LuaType::StrTplRef(p, n) => LuaType::StrTplRef(p.clone(), n.clone()),
        LuaType::Variadic(vt) => match &**vt {
            VariadicType::Base(b) => {
                proof {
                    assert(decreases_to!(v => v->VariadicBase_0));
                }
                LuaType::Variadic(Box::new(VariadicType::Base(instantiate_type(b, params))))
            },
            VariadicType::Multi(ts) => {
                proof {
                    assert(decreases_to!(v => v->VariadicMulti_0));
                }
                LuaType::Variadic(Box::new(VariadicType::Multi(instantiate_types(ts, params))))
            },
        },
        LuaType::Instance(b) => {
            proof {
                assert(decreases_to!(v => v->Instance_0));
            }
            LuaType::Instance(Box::new(instantiate_type(b, params)))
        },
        LuaType::Signature(s) => LuaType::Signature(*s),
        LuaType::Namespace(s) => LuaType::Namespace(s.clone()),
        LuaType::MultiLineUnion(ms) => {
            proof {
                assert(decreases_to!(v => v->MultiLineUnion_0));
            }
            LuaType::MultiLineUnion(instantiate_described_list(ms, params))
        },
        LuaType::TypeGuard(b) => {
            proof {
                assert(decreases_to!(v => v->TypeGuard_0));
            }
            LuaType::TypeGuard(Box::new(instantiate_type(b, params)))
        },
        LuaType::ConstTplRef(s) => LuaType::ConstTplRef(s.clone()),
        LuaType::Language(s) => LuaType::Language(s.clone()),
        LuaType::Conditional(a, b, c) => {
            proof {
                assert(decreases_to!(v => v->Conditional_0));
                assert(decreases_to!(v => v->Conditional_1));
                assert(decreases_to!(v => v->Conditional_2));
            }
            LuaType::Conditional(
                Box::new(instantiate_type(a, params)),
                Box::new(instantiate_type(b, params)),
                Box::new(instantiate_type(c, params)),
            )
        },
        LuaType::ConditionalInfer(s) => LuaType::ConditionalInfer(s.clone()),
        LuaType::Never => LuaType::Never,
        LuaType::ModuleRef(f) => LuaType::ModuleRef(*f),
    }
}

fn instantiate_types(ts: &Vec<LuaType>, params: &Vec<LuaType>) -> (r: Vec<LuaType>)
    ensures
        types_view(r@) == instantiate_all(types_view(ts@), types_view(params@)),
    decreases params@.len(), types_view(ts@),
{
    let ghost tv = types_view(ts@);
    let ghost pv = types_view(params@);
    proof {
        lemma_types_view(ts@);
    }
    let mut out: Vec<LuaType> = Vec::new();
    let mut i: usize = 0;
    while i < ts.len()
        invariant
            i <= ts.len(),
            tv == types_view(ts@),
            pv == types_view(params@),
            tv.len() == ts@.len(),
            forall|j: int| 0 <= j < ts@.len() ==> tv[j] == #[trigger] ts@[j].view(),
            types_view(out@) == instantiate_all(tv.take(i as int), pv),
        decreases ts.len() - i,
    {
        proof {
            assert(decreases_to!(tv => tv[i as int]));
        }
        let x = instantiate_type(&ts[i], params);
        let ghost before = out@;
        out.push(x);
        proof {
            assert(out@.drop_last() =~= before);
            assert(tv.take(i + 1).drop_last() =~= tv.take(i as int));
        }
        i = i + 1;
    }
    proof {
        assert(tv.take(ts@.len() as int) =~= tv);
    }
    out
}

fn instantiate_param_list(ps: &Vec<(String, Option<LuaType>)>, params: &Vec<LuaType>) -> (r: Vec<
    (String, Option<LuaType>),
>)
    ensures
        params_view(r@) == instantiate_params(params_view(ps@), types_view(params@)),
    decreases params@.len(), params_view(ps@),
{
    let ghost qv = params_view(ps@);
    let ghost pv = types_view(params@);
    proof {
        lemma_params_view(ps@);
    }
    let mut out: Vec<(String, Option<LuaType>)> = Vec::new();
    let mut i: usize = 0;
    while i < ps.len()
        invariant
            i <= ps.len(),
            qv == params_view(ps@),
            pv == types_view(params@),
            qv.len() == ps@.len(),
            forall|j: int|
                0 <= j < ps@.len() ==> qv[j] == (
                    #[trigger] ps@[j].0@,
                    match ps@[j].1 {
                        Some(t) => Some(t.view()),
                        None => None,
                    },
                ),
            params_view(out@) == instantiate_params(qv.take(i as int), pv),
        decreases ps.len() - i,
    {
        let p = &ps[i];
        let t = match &p.1 {
            Some(t) => {
                proof {
                    assert(qv[i as int] == (p.0@, Some(t.view())));
                    assert(decreases_to!(qv => qv[i as int]));
                    assert(decreases_to!(qv[i as int] => qv[i as int].1));
                    assert(qv[i as int].1->0 == t.view());
                    assert(decreases_to!(qv[i as int].1 => qv[i as int].1->0));
                }
                Some(instantiate_type(t, params))
            },
            None => None,
        };
        let ghost before = out@;
        out.push((p.0.clone(), t));
        proof {
            assert(out@.drop_last() =~= before);
            assert(qv.take(i + 1).drop_last() =~= qv.take(i as int));
        }
        i = i + 1;
    }
    proof {
        assert(qv.take(ps@.len() as int) =~= qv);
    }
    out
}

fn instantiate_field_list(fs: &Vec<(LuaMemberKey, LuaType)>, params: &Vec<LuaType>) -> (r: Vec<
    (LuaMemberKey, LuaType),
>)
    ensures
        fields_view(r@) == instantiate_fields(fields_view(fs@), types_view(params@)),
    decreases params@.len(), fields_view(fs@),
{
    let ghost fv = fields_view(fs@);
    let ghost pv = types_view(params@);
    proof {
        lemma_fields_view(fs@);
    }
    let mut out: Vec<(LuaMemberKey, LuaType)> = Vec::new();
    let mut i: usize = 0;
    while i < fs.len()
        invariant
            i <= fs.len(),
            fv == fields_view(fs@),
            pv == types_view(params@),
            fv.len() == fs@.len(),
            forall|j: int| 0 <= j < fs@.len() ==> fv[j] == (#[trigger] fs@[j].0.view(), fs@[j].1.view()),
            fields_view(out@) == instantiate_fields(fv.take(i as int), pv),
        decreases fs.len() - i,
    {
        let f = &fs[i];
        proof {
            assert(fv[i as int] == (f.0.view(), f.1.view()));
            assert(decreases_to!(fv => fv[i as int]));
            assert(decreases_to!(fv[i as int] => fv[i as int].1));
        }
        let t = instantiate_type(&f.1, params);
        let k = clone_key(&f.0);
        let ghost before = out@;
        out.push((k, t));
        proof {
            assert(out@.drop_last() =~= before);
            assert(fv.take(i + 1).drop_last() =~= fv.take(i as int));
        }
        i = i + 1;
    }
    proof {
        assert(fv.take(fs@.len() as int) =~= fv);
    }
    out
}

fn instantiate_pair_list(fs: &Vec<(LuaType, LuaType)>, params: &Vec<LuaType>) -> (r: Vec<
    (LuaType, LuaType),
>)
    ensures
        pairs_view(r@) == instantiate_pairs(pairs_view(fs@), types_view(params@)),
    decreases params@.len(), pairs_view(fs@),
{
    let ghost fv = pairs_view(fs@);
    let ghost pv = types_view(params@);
    proof {
        lemma_pairs_view(fs@);
    }
    let mut out: Vec<(LuaType, LuaType)> = Vec::new();
    let mut i: usize = 0;
    while i < fs.len()
        invariant
            i <= fs.len(),
            fv == pairs_view(fs@),
            pv == types_view(params@),
            fv.len() == fs@.len(),
            forall|j: int| 0 <= j < fs@.len() ==> fv[j] == (#[trigger] fs@[j].0.view(), fs@[j].1.view()),
            pairs_view(out@) == instantiate_pairs(fv.take(i as int), pv),
        decreases fs.len() - i,
    {
        let f = &fs[i];
        proof {
            assert(fv[i as int] == (f.0.view(), f.1.view()));
            assert(decreases_to!(fv => fv[i as int]));
            assert(decreases_to!(fv[i as int] => fv[i as int].0));
            assert(decreases_to!(fv[i as int] => fv[i as int].1));
        }
        let a = instantiate_type(&f.0, params);
        let b = instantiate_type(&f.1, params);
        let ghost before = out@;
        out.push((a, b));
        proof {
            assert(out@.drop_last() =~= before);
            assert(fv.take(i + 1).drop_last() =~= fv.take(i as int));
        }
        i = i + 1;
    }
    proof {
        assert(fv.take(fs@.len() as int) =~= fv);
    }
    out
}

fn instantiate_described_list(ms: &Vec<(LuaType, Option<String>)>, params: &Vec<LuaType>) -> (r: Vec<
    (LuaType, Option<String>),
>)
    ensures
        described_view(r@) == instantiate_described(described_view(ms@), types_view(params@)),
    decreases params@.len(), described_view(ms@),
{
    let ghost dv = described_view(ms@);
    let ghost pv = types_view(params@);
    proof {
        lemma_described_view(ms@);
    }
    let mut out: Vec<(LuaType, Option<String>)> = Vec::new();
    let mut i: usize = 0;
    while i < ms.len()
        invariant
            i <= ms.len(),
            dv == described_view(ms@),
            pv == types_view(params@),
            dv.len() == ms@.len(),
            forall|j: int|
                0 <= j < ms@.len() ==> #[trigger] dv[j] == (
                    ms@[j].0.view(),
                    match ms@[j].1 {
                        Some(d) => Some(d@),
                        None => None,
                    },
                ),
            described_view(out@) == instantiate_described(dv.take(i as int), pv),
        decreases ms.len() - i,
    {
        let m = &ms[i];
        proof {
            assert(dv[i as int].0 == m.0.view());
            assert(decreases_to!(dv => dv[i as int]));
            assert(decreases_to!(dv[i as int] => dv[i as int].0));
        }
        let t = instantiate_type(&m.0, params);
        let d = match &m.1 {
            Some(d) => Some(d.clone()),
            None => None,
        };
        let ghost before = out@;
        out.push((t, d));
        proof {
            assert(out@.drop_last() =~= before);
            assert(dv.take(i + 1).drop_last() =~= dv.take(i as int));
        }
        i = i + 1;
    }
    proof {
        assert(dv.take(ms@.len() as int) =~= dv);
    }
    out
}

/// A copy of a type.
pub fn clone_type(ty: &LuaType) -> (r: LuaType)
    ensures
        r.view() == ty.view(),
{
    let none: Vec<LuaType> = Vec::new();
    proof {
        lemma_types_view(none@);
        assert(types_view(none@) =~= Seq::<TypeV>::empty());
        lemma_instantiate_nothing(ty.view());
    }
    instantiate_type(ty, &none)
}

/// A copy of a member key.
pub fn clone_key(k: &LuaMemberKey) -> (r: LuaMemberKey)
    ensures
        r.view() == k.view(),
{
    match k {
        LuaMemberKey::NoKey => LuaMemberKey::NoKey,
        LuaMemberKey::Integer(i) => LuaMemberKey::Integer(*i),
        LuaMemberKey::Name(s) => LuaMemberKey::Name(s.clone()),
        LuaMemberKey::ExprType(e) => LuaMemberKey::ExprType(*e),
    }
}

} // verus!
