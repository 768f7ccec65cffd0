use vstd::prelude::*;

use crate::db_index::{find_members, members_view, DbIndex, DbView};
use crate::file_id::FileId;
use crate::infer_session::InferSession;
use crate::instantiate::{clone_key, clone_type};
use crate::lua_type::{
    is_function_v, key_eq, lemma_types_view, types_view, KeyV, LuaMemberKey, LuaMemberOwner, LuaType,
    OwnerV, TypeV,
};

verus! {

/// A member found on a type, as member completion and checks see it.
#[derive(Debug, PartialEq, Eq)]
pub struct LuaMemberInfo {
    pub key: LuaMemberKey,
    pub typ: LuaType,
    /// The declaration that owns the member's documentation, by id.
    pub property_owner_id: Option<u64>,
    /// How the member was declared, by id.
    pub feature: Option<u32>,
    /// Which overload of a union of functions this entry stands for.
    pub overload_index: Option<usize>,
}

pub struct InfoV {
    pub key: KeyV,
    pub typ: TypeV,
    pub property_owner_id: Option<u64>,
    pub feature: Option<u32>,
    pub overload_index: Option<usize>,
}

impl LuaMemberInfo {
    pub open spec fn view(&self) -> InfoV {
        InfoV {
            key: self.key.view(),
            typ: self.typ.view(),
            property_owner_id: self.property_owner_id,
            feature: self.feature,
            overload_index: self.overload_index,
        }
    }
}

pub open spec fn infos_view(s: Seq<LuaMemberInfo>) -> Seq<InfoV> {
    s.map_values(|m: LuaMemberInfo| m.view())
}

/// A member map: each key with its members, keys in order of first appearance.
pub open spec fn entries_view(s: Seq<(LuaMemberKey, Vec<LuaMemberInfo>)>) -> Seq<(KeyV, Seq<InfoV>)> {
    s.map_values(|e: (LuaMemberKey, Vec<LuaMemberInfo>)| (e.0.view(), infos_view(e.1@)))
}

/// Index of the entry for `k`, or -1.
pub open spec fn entry_index(m: Seq<(KeyV, Seq<InfoV>)>, k: KeyV) -> int
    decreases m.len(),
{
    if m.len() == 0 {
        -1
    } else if m.last().0 == k {
        m.len() - 1
    } else {
        entry_index(m.drop_last(), k)
    }
}

/// `info` added under key `k`: appended to that key's members, or a new entry at the end.
pub open spec fn map_add(m: Seq<(KeyV, Seq<InfoV>)>, k: KeyV, info: InfoV) -> Seq<(KeyV, Seq<InfoV>)> {
    let i = entry_index(m, k);
    if i >= 0 {
        m.update(i, (k, m[i].1.push(info)))
    } else {
        m.push((k, seq![info]))
    }
}

/// The overload entries of a union of functions: one per function, with its index.
pub open spec fn add_overloads(m: Seq<(KeyV, Seq<InfoV>)>, info: InfoV, fs: Seq<TypeV>) -> Seq<(KeyV, Seq<InfoV>)>
    decreases fs.len(),
{
    if fs.len() == 0 {
        m
    } else {
        let idx = (fs.len() - 1) as usize;
        map_add(
            add_overloads(m, info, fs.drop_last()),
            info.key,
            InfoV { typ: fs.last(), overload_index: Some(idx), ..info },
        )
    }
}

pub open spec fn all_functions(fs: Seq<TypeV>) -> bool {
    forall|i: int| 0 <= i < fs.len() ==> is_function_v(#[trigger] fs[i])
}

/// Members grouped by key. A member whose type is a union of functions only
/// stands for one entry per function, each carrying its overload index.
pub open spec fn member_map_of(ms: Seq<InfoV>) -> Seq<(KeyV, Seq<InfoV>)>
    decreases ms.len(),
{
    if ms.len() == 0 {
        Seq::empty()
    } else {
        let prev = member_map_of(ms.drop_last());
        let m = ms.last();
        match m.typ {
            TypeV::Union(fs) => if all_functions(fs) {
                add_overloads(prev, m, fs)
            } else {
                map_add(prev, m.key, m)
            },
            _ => map_add(prev, m.key, m),
        }
    }
}

proof fn lemma_entry_index(m: Seq<(KeyV, Seq<InfoV>)>, k: KeyV)
    ensures
        -1 <= entry_index(m, k) < m.len(),
        entry_index(m, k) >= 0 ==> m[entry_index(m, k)].0 == k,
        entry_index(m, k) < 0 ==> forall|j: int| 0 <= j < m.len() ==> m[j].0 != k,
        entry_index(m, k) >= 0 ==> forall|j: int| entry_index(m, k) < j < m.len() ==> m[j].0 != k,
    decreases m.len(),
{
    if m.len() > 0 && m.last().0 != k {
        lemma_entry_index(m.drop_last(), k);
        assert forall|j: int| 0 <= j < m.len() - 1 implies m[j] == m.drop_last()[j] by {}
    }
}

/// No key has two entries.
pub open spec fn keys_unique(m: Seq<(KeyV, Seq<InfoV>)>) -> bool {
    forall|i: int, j: int| 0 <= i < j < m.len() ==> m[i].0 != m[j].0
}

/// Whether `m` has an entry for `k`.
pub open spec fn has_key(m: Seq<(KeyV, Seq<InfoV>)>, k: KeyV) -> bool {
    exists|i: int| 0 <= i < m.len() && m[i].0 == k
}

/// A member gives the map at least one entry unless its type is an empty union.
pub open spec fn contributes(m: InfoV) -> bool {
    !(m.typ matches TypeV::Union(fs) && fs.len() == 0)
}

proof fn lemma_map_add_keys(m: Seq<(KeyV, Seq<InfoV>)>, k: KeyV, info: InfoV)
    requires
        keys_unique(m),
    ensures
        keys_unique(map_add(m, k, info)),
        forall|q: KeyV| has_key(map_add(m, k, info), q) <==> (has_key(m, q) || q == k),
{
    lemma_entry_index(m, k);
    let r = map_add(m, k, info);
    let ei = entry_index(m, k);
    assert forall|q: KeyV| has_key(r, q) <==> (has_key(m, q) || q == k) by {
        if has_key(r, q) {
            let i = choose|i: int| 0 <= i < r.len() && r[i].0 == q;
            if i < m.len() {
                assert(r[i].0 == m[i].0);
            }
        }
        if has_key(m, q) {
            let i = choose|i: int| 0 <= i < m.len() && m[i].0 == q;
            assert(r[i].0 == q);
        }
        if q == k {
            if ei >= 0 {
                assert(r[ei].0 == k);
            } else {
                assert(r[m.len() as int].0 == k);
            }
        }
    }
}

proof fn lemma_add_overloads_keys(m: Seq<(KeyV, Seq<InfoV>)>, info: InfoV, fs: Seq<TypeV>)
    requires
        keys_unique(m),
    ensures
        keys_unique(add_overloads(m, info, fs)),
        forall|q: KeyV| has_key(add_overloads(m, info, fs), q) <==> (has_key(m, q) || (q == info.key
            && fs.len() > 0)),
    decreases fs.len(),
{
    if fs.len() > 0 {
        let idx = (fs.len() - 1) as usize;
        lemma_add_overloads_keys(m, info, fs.drop_last());
        lemma_map_add_keys(
            add_overloads(m, info, fs.drop_last()),
            info.key,
            InfoV { typ: fs.last(), overload_index: Some(idx), ..info },
        );
    }
}

/// A member map has one entry per key, and its keys are exactly the keys of
/// the members, leaving out a member whose type is an empty union.
pub proof fn lemma_member_map_keys(ms: Seq<InfoV>)
    ensures
        keys_unique(member_map_of(ms)),
        forall|k: KeyV| has_key(member_map_of(ms), k) <==> exists|i: int|
            0 <= i < ms.len() && #[trigger] ms[i].key == k && contributes(ms[i]),
    decreases ms.len(),
{
    if ms.len() > 0 {
        let prev = member_map_of(ms.drop_last());
        let m = ms.last();
        lemma_member_map_keys(ms.drop_last());
        match m.typ {
            TypeV::Union(fs) => if all_functions(fs) {
                lemma_add_overloads_keys(prev, m, fs);
            } else {
                lemma_map_add_keys(prev, m.key, m);
            },
            _ => lemma_map_add_keys(prev, m.key, m),
        }
        assert forall|k: KeyV| has_key(member_map_of(ms), k) <==> exists|i: int|
            0 <= i < ms.len() && #[trigger] ms[i].key == k && contributes(ms[i]) by {
            if has_key(prev, k) {
                let i = choose|i: int|
                    0 <= i < ms.drop_last().len() && #[trigger] ms.drop_last()[i].key == k
                        && contributes(ms.drop_last()[i]);
                assert(ms[i] == ms.drop_last()[i]);
            }
            if exists|i: int| 0 <= i < ms.len() && #[trigger] ms[i].key == k && contributes(ms[i]) {
                let i = choose|i: int| 0 <= i < ms.len() && #[trigger] ms[i].key == k && contributes(ms[i]);
                if i < ms.len() - 1 {
                    assert(ms.drop_last()[i] == ms[i]);
                }
            }
        }
    } else {
        assert(member_map_of(ms) =~= Seq::<(KeyV, Seq<InfoV>)>::empty());
    }
}

/// Add `info` under its key.
fn add_to_map(map: &mut Vec<(LuaMemberKey, Vec<LuaMemberInfo>)>, info: LuaMemberInfo)
    ensures
        entries_view(final(map)@) == map_add(entries_view(old(map)@), info.key.view(), info.view()),
{
    let ghost mv = entries_view(map@);
    let ghost k = info.key.view();
    proof {
        lemma_entry_index(mv, k);
    }
    let mut i = map.len();
    while i > 0
        invariant_except_break
            i <= map.len(),
            mv == entries_view(map@),
            k == info.key.view(),
            forall|j: int| i <= j < map@.len() ==> mv[j].0 != k,
        ensures
            mv == entries_view(map@),
            k == info.key.view(),
            i <= map.len(),
            i > 0 ==> mv[i - 1].0 == k && forall|j: int| i <= j < map@.len() ==> mv[j].0 != k,
            i == 0 ==> forall|j: int| 0 <= j < map@.len() ==> mv[j].0 != k,
        decreases i,
    {
        assert(mv[i - 1].0 == map@[i - 1].0.view());
        if key_eq(&map[i - 1].0, &info.key) {
            break;
        }
        i = i - 1;
    }
    if i > 0 {
        let idx = i - 1;
        proof {
            let ei = entry_index(mv, k);
            if ei != idx as int {
                if ei < idx as int {
                    assert(mv[idx as int].0 == k);
                } else {
                    assert(mv[ei].0 == k);
                }
            }
        }
        let ghost old_members = map@[idx as int].1@;
        let mut entry = map.remove(idx);
        entry.1.push(info);
        map.insert(idx, entry);
        proof {
            assert(infos_view(entry.1@) =~= infos_view(old_members).push(info.view()));
            assert(entries_view(map@) =~= map_add(mv, k, info.view()));
        }
    } else {
        proof {
            let ei = entry_index(mv, k);
            if ei >= 0 {
                assert(mv[ei].0 == k);
            }
        }
        let key = clone_key(&info.key);
        let mut members: Vec<LuaMemberInfo> = Vec::new();
        members.push(info);
        map.push((key, members));
        proof {
            assert(infos_view(members@) =~= seq![info.view()]);
            assert(entries_view(map@) =~= map_add(mv, k, info.view()));
        }
    }
}

/// Group members by key. A member whose type is a union of functions
/// (typically an instantiated generic) is split into one entry per function,
/// each with its overload index.
pub fn build_member_map(members: Vec<LuaMemberInfo>) -> (r: Option<Vec<(LuaMemberKey, Vec<LuaMemberInfo>)>>)
    ensures
        r matches Some(m) && entries_view(m@) == member_map_of(infos_view(members@)),
{
    let ghost msv = infos_view(members@);
    let mut member_map: Vec<(LuaMemberKey, Vec<LuaMemberInfo>)> = Vec::new();
    let mut i: usize = 0;
    proof {
        assert(msv.take(0) =~= Seq::<InfoV>::empty());
        assert(entries_view(member_map@) =~= Seq::<(KeyV, Seq<InfoV>)>::empty());
    }
    while i < members.len()
        invariant
            i <= members.len(),
            msv == infos_view(members@),
            entries_view(member_map@) == member_map_of(msv.take(i as int)),
        decreases members.len() - i,
    {
        let member = &members[i];
        proof {
            assert(msv.take(i + 1).drop_last() =~= msv.take(i as int));
            assert(msv.take(i + 1).last() == member.view());
        }
        let mut handled = false;
        match &member.typ {
            LuaType::Union(u) => {
                proof {
                    lemma_types_view(u@);
                }
                let mut all_fn = true;
                let mut j: usize = 0;
                while j < u.len()
                    invariant
                        j <= u.len(),
                        types_view(u@).len() == u@.len(),
                        forall|q: int| 0 <= q < u@.len() ==> types_view(u@)[q] == #[trigger] u@[q].view(),
                        all_fn == (forall|q: int| 0 <= q < j ==> is_function_v(#[trigger] types_view(u@)[q])),
                    decreases u.len() - j,
                {
                    if !u[j].is_function() {
                        all_fn = false;
                    }
                    j = j + 1;
                }
                if all_fn {
                    let ghost fs = types_view(u@);
                    let ghost base = entries_view(member_map@);
                    let mut index: usize = 0;
                    proof {
                        assert(fs.take(0) =~= Seq::<TypeV>::empty());
                    }
                    while index < u.len()
                        invariant
                            index <= u.len(),
                            fs == types_view(u@),
                            fs.len() == u@.len(),
                            forall|q: int| 0 <= q < u@.len() ==> fs[q] == #[trigger] u@[q].view(),
                            entries_view(member_map@) == add_overloads(base, member.view(), fs.take(index as int)),
                        decreases u.len() - index,
                    {
                        let new_member = LuaMemberInfo {
                            key: clone_key(&member.key),
                            typ: clone_type(&u[index]),
                            property_owner_id: member.property_owner_id,
                            feature: member.feature,
                            overload_index: Some(index),
                        };
                        proof {
                            assert(fs.take(index + 1).drop_last() =~= fs.take(index as int));
                            assert(new_member.view() == InfoV {
                                typ: fs.take(index + 1).last(),
                                overload_index: Some(index),
                                ..member.view()
                            });
                        }
                        add_to_map(&mut member_map, new_member);
                        index = index + 1;
                    }
                    proof {
                        assert(fs.take(u@.len() as int) =~= fs);
                    }
                    handled = true;
                }
            },
            _ => {},
        }
        if !handled {
            let copy = LuaMemberInfo {
                key: clone_key(&member.key),
                typ: clone_type(&member.typ),
                property_owner_id: member.property_owner_id,
                feature: member.feature,
                overload_index: member.overload_index,
            };
            add_to_map(&mut member_map, copy);
        }
        i = i + 1;
    }
    proof {
        assert(msv.take(members@.len() as int) =~= msv);
    }
    Some(member_map)
}

/// Whose members a value of this type has: a declared type's, or a table literal's.
pub open spec fn prefix_owner(t: TypeV) -> Option<OwnerV> {
    match t {
        TypeV::Ref(id) => Some(OwnerV::Type(id)),
        TypeV::Def(id) => Some(OwnerV::Type(id)),
        TypeV::TableConst(e) => Some(OwnerV::Element(e)),
        _ => None,
    }
}

pub open spec fn member_info_of(m: (KeyV, Option<TypeV>)) -> InfoV {
    InfoV {
        key: m.0,
        typ: crate::render_spec::member_type(m.1),
        property_owner_id: None,
        feature: None,
        overload_index: None,
    }
}

/// The members recorded in the index for the owner of `t`.
pub open spec fn found_members(db: DbView, t: TypeV) -> Option<Seq<InfoV>> {
    match prefix_owner(t) {
        None => None,
        Some(o) => match find_members(db.members, o) {
            None => None,
            Some(ms) => Some(ms.map_values(|m: (KeyV, Option<TypeV>)| member_info_of(m))),
        },
    }
}

/// The members of `prefix_type` as infos, when its owner has recorded members.
pub fn find_member_infos(db: &DbIndex, prefix_type: &LuaType) -> (r: Option<Vec<LuaMemberInfo>>)
    ensures
        match found_members(db.view(), prefix_type.view()) {
            None => r is None,
            Some(ms) => r matches Some(v) && infos_view(v@) == ms,
        },
{
    let owner = match prefix_type {
        LuaType::Ref(id) => LuaMemberOwner::Type(crate::lua_type::LuaTypeDeclId { name: id.name.clone() }),
        LuaType::Def(id) => LuaMemberOwner::Type(crate::lua_type::LuaTypeDeclId { name: id.name.clone() }),
        LuaType::TableConst(e) => LuaMemberOwner::Element(*e),
        _ => return None,
    };
    let members = match db.get_sorted_members(&owner) {
        Some(m) => m,
        None => return None,
    };
    let ghost msv = members_view(members@);
    let ghost target = msv.map_values(|m: (KeyV, Option<TypeV>)| member_info_of(m));
    let mut out: Vec<LuaMemberInfo> = Vec::new();
    let mut i: usize = 0;
    while i < members.len()
        invariant
            i <= members.len(),
            msv == members_view(members@),
            target == msv.map_values(|m: (KeyV, Option<TypeV>)| member_info_of(m)),
            infos_view(out@) == target.take(i as int),
            out@.len() == i,
            target.len() == members@.len(),
        decreases members.len() - i,
    {
        let m = &members[i];
        let typ = match &m.type_cache {
            Some(t) => clone_type(t),
            None => LuaType::Any,
        };
        let info = LuaMemberInfo {
            key: clone_key(&m.key),
            typ,
            property_owner_id: None,
            feature: None,
            overload_index: None,
        };
        proof {
            assert(msv[i as int] == m.view());
            assert(info.view() == target[i as int]);
        }
        let ghost before = out@;
        let ghost iv = info.view();
        out.push(info);
        proof {
            assert(out@ == before.push(info));
            assert forall|j: int| 0 <= j < i + 1 implies infos_view(out@)[j] == target.take(i + 1)[j] by {
                if j < i {
                    assert(infos_view(before)[j] == target.take(i as int)[j]);
                    assert(out@[j] == before[j]);
                }
            }
            assert(infos_view(out@) =~= target.take(i + 1));
        }
        i = i + 1;
    }
    proof {
        assert(target.take(members@.len() as int) =~= target);
    }
    Some(out)
}

/// The member map of the type a value of `prefix_type` has.
pub fn get_member_map(db: &DbIndex, prefix_type: &LuaType) -> (r: Option<Vec<(LuaMemberKey, Vec<LuaMemberInfo>)>>)
    ensures
        match found_members(db.view(), prefix_type.view()) {
            None => r is None,
            Some(ms) => r matches Some(m) && entries_view(m@) == member_map_of(ms),
        },
{
    let members = find_member_infos(db, prefix_type)?;
    build_member_map(members)
}

/// The member map of `prefix_type` as seen from `file_id`. The index model
/// records no member visibility, so every member is visible from every file.
pub fn get_member_map_in_scope(db: &DbIndex, file_id: FileId, prefix_type: &LuaType) -> (r: Option<
    Vec<(LuaMemberKey, Vec<LuaMemberInfo>)>,
>)
    ensures
        match found_members(db.view(), prefix_type.view()) {
            None => r is None,
            Some(ms) => r matches Some(m) && entries_view(m@) == member_map_of(ms),
        },
{
    let members = find_member_infos(db, prefix_type)?;
    build_member_map(members)
}

/// The member map of `prefix_type` as seen from `file_id`, for a caller that
/// is inside an inference session. The index model records no member
/// visibility and resolves members without entering other files, so the
/// session is only passed along.
#[allow(unused_variables)]
pub fn get_member_map_in_scope_with_session(
    db: &DbIndex,
    file_id: FileId,
    prefix_type: &LuaType,
    infer_session: &InferSession,
) -> (r: Option<Vec<(LuaMemberKey, Vec<LuaMemberInfo>)>>)
    ensures
        match found_members(db.view(), prefix_type.view()) {
            None => r is None,
            Some(ms) => r matches Some(m) && entries_view(m@) == member_map_of(ms),
        },
{
    let members = find_member_infos(db, prefix_type)?;
    build_member_map(members)
}

} // verus!
