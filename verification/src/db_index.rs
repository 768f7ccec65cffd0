use vstd::prelude::*;

use crate::file_id::FileId;
use crate::lua_type::{
    params_view, types_view, KeyV, LuaMemberKey, LuaMemberOwner, LuaType, LuaTypeDeclId, OwnerV, TypeV,
};

verus! {

/// A declared class, alias or enum.
pub struct LuaTypeDecl {
    pub id: LuaTypeDeclId,
    pub full_name: String,
    /// Names of its generic parameters, when it has any.
    pub generic_params: Option<Vec<String>>,
    pub is_alias: bool,
    /// What an alias stands for; its template references point at the
    /// alias's generic parameters by index.
    pub alias_origin: Option<LuaType>,
}

/// One member of a type or table: its key and the cached type, if one was inferred.
pub struct LuaMember {
    pub key: LuaMemberKey,
    pub type_cache: Option<LuaType>,
}

/// The members of one owner, in their sorted order.
pub struct OwnedMembers {
    pub owner: LuaMemberOwner,
    pub members: Vec<LuaMember>,
}

/// A function signature declared in code.
pub struct LuaSignature {
    pub id: u32,
    pub generic_params: Vec<String>,
    pub is_vararg: bool,
    /// Parameter names, with their documented types.
    pub params: Vec<(String, Option<LuaType>)>,
    /// The signature's resolved return type.
    pub return_type: LuaType,
    /// The documented return types, in order.
    pub return_docs: Vec<LuaType>,
}

/// What a module (file) exports.
pub struct ModuleInfo {
    pub file_id: FileId,
    /// The path `require` names the module by.
    pub require_path: String,
    pub export_type: Option<LuaType>,
}

/// The part of the workspace index that type rendering reads.
pub struct DbIndex {
    pub type_decls: Vec<LuaTypeDecl>,
    pub members: Vec<OwnedMembers>,
    pub signatures: Vec<LuaSignature>,
    pub modules: Vec<ModuleInfo>,
    /// `runtime.inferReentryLimit` of the configuration.
    pub infer_reentry_limit: u32,
}

// ─── model ──────────────────────────────────────────────────────────────────

pub struct DeclV {
    pub id: Seq<char>,
    pub full_name: Seq<char>,
    pub generic_params: Option<Seq<Seq<char>>>,
    pub is_alias: bool,
    pub alias_origin: Option<TypeV>,
}

pub struct SigV {
    pub id: u32,
    pub generic_params: Seq<Seq<char>>,
    pub is_vararg: bool,
    pub params: Seq<(Seq<char>, Option<TypeV>)>,
    pub return_type: TypeV,
    pub return_docs: Seq<TypeV>,
}

pub struct DbView {
    pub decls: Seq<DeclV>,
    pub members: Seq<(OwnerV, Seq<(KeyV, Option<TypeV>)>)>,
    pub sigs: Seq<SigV>,
    pub modules: Seq<(u32, Option<TypeV>)>,
    /// Each module's path with its file id, in the order of `modules`.
    pub require_paths: Seq<(Seq<char>, u32)>,
    pub reentry_limit: u32,
}

pub open spec fn strings_view(v: Seq<String>) -> Seq<Seq<char>> {
    v.map_values(|s: String| s@)
}

pub proof fn lemma_strings_view_len(v: Seq<String>)
    ensures
        strings_view(v).len() == v.len(),
{
}

pub open spec fn opt_type_view(t: Option<LuaType>) -> Option<TypeV> {
    match t {
        Some(t) => Some(t.view()),
        None => None,
    }
}

impl LuaTypeDecl {
    pub open spec fn view(&self) -> DeclV {
        DeclV {
            id: self.id.name@,
            full_name: self.full_name@,
            generic_params: match self.generic_params {
                Some(g) => Some(strings_view(g@)),
                None => None,
            },
            is_alias: self.is_alias,
            alias_origin: opt_type_view(self.alias_origin),
        }
    }
}

impl LuaMember {
    pub open spec fn view(&self) -> (KeyV, Option<TypeV>) {
        (self.key.view(), opt_type_view(self.type_cache))
    }
}

pub open spec fn members_view(v: Seq<LuaMember>) -> Seq<(KeyV, Option<TypeV>)> {
    v.map_values(|m: LuaMember| m.view())
}

impl LuaSignature {
    pub open spec fn view(&self) -> SigV {
        SigV {
            id: self.id,
            generic_params: strings_view(self.generic_params@),
            is_vararg: self.is_vararg,
            params: params_view(self.params@),
            return_type: self.return_type.view(),
            return_docs: types_view(self.return_docs@),
        }
    }
}

impl DbIndex {
    pub open spec fn view(&self) -> DbView {
        DbView {
            decls: self.type_decls@.map_values(|d: LuaTypeDecl| d.view()),
            members: self.members@.map_values(
                |o: OwnedMembers| (o.owner.view(), members_view(o.members@)),
            ),
            sigs: self.signatures@.map_values(|s: LuaSignature| s.view()),
            modules: self.modules@.map_values(
                |m: ModuleInfo| (m.file_id.id, opt_type_view(m.export_type)),
            ),
            require_paths: self.modules@.map_values(
                |m: ModuleInfo| (m.require_path@, m.file_id.id),
            ),
            reentry_limit: self.infer_reentry_limit,
        }
    }
}

/// The first declaration with this id.
pub open spec fn find_decl(ds: Seq<DeclV>, id: Seq<char>) -> Option<DeclV>
    decreases ds.len(),
{
    if ds.len() == 0 {
        None
    } else if ds[0].id == id {
        Some(ds[0])
    } else {
        find_decl(ds.drop_first(), id)
    }
}

/// The members recorded first for this owner.
pub open spec fn find_members(
    ms: Seq<(OwnerV, Seq<(KeyV, Option<TypeV>)>)>,
    owner: OwnerV,
) -> Option<Seq<(KeyV, Option<TypeV>)>>
    decreases ms.len(),
{
    if ms.len() == 0 {
        None
    } else if ms[0].0 == owner {
        Some(ms[0].1)
    } else {
        find_members(ms.drop_first(), owner)
    }
}

/// The first signature with this id.
pub open spec fn find_sig(ss: Seq<SigV>, id: u32) -> Option<SigV>
    decreases ss.len(),
{
    if ss.len() == 0 {
        None
    } else if ss[0].id == id {
        Some(ss[0])
    } else {
        find_sig(ss.drop_first(), id)
    }
}

/// The export type of the first module recorded for this file.
pub open spec fn find_module(ms: Seq<(u32, Option<TypeV>)>, f: u32) -> Option<Option<TypeV>>
    decreases ms.len(),
{
    if ms.len() == 0 {
        None
    } else if ms[0].0 == f {
        Some(ms[0].1)
    } else {
        find_module(ms.drop_first(), f)
    }
}

/// The file of the first module recorded under this path.
pub open spec fn find_module_by_path(ps: Seq<(Seq<char>, u32)>, path: Seq<char>) -> Option<u32>
    decreases ps.len(),
{
    if ps.len() == 0 {
        None
    } else if ps[0].0 == path {
        Some(ps[0].1)
    } else {
        find_module_by_path(ps.drop_first(), path)
    }
}

pub fn owner_eq(a: &LuaMemberOwner, b: &LuaMemberOwner) -> (r: bool)
    ensures
        r == (a.view() == b.view()),
{
    match (a, b) {
        (LuaMemberOwner::Type(x), LuaMemberOwner::Type(y)) => x.name == y.name,
        (LuaMemberOwner::Element(x), LuaMemberOwner::Element(y)) => *x == *y,
        _ => false,
    }
}

impl DbIndex {
    pub fn get_type_decl(&self, id: &LuaTypeDeclId) -> (r: Option<&LuaTypeDecl>)
        ensures
            match r {
                Some(d) => find_decl(self.view().decls, id.name@) == Some(d.view()),
                None => find_decl(self.view().decls, id.name@) is None,
            },
    {
        let ghost ds = self.view().decls;
        let mut i: usize = 0;
        assert(ds.skip(0) =~= ds);
        while i < self.type_decls.len()
            invariant
                i <= self.type_decls.len(),
                ds == self.view().decls,
                find_decl(ds, id.name@) == find_decl(ds.skip(i as int), id.name@),
            decreases self.type_decls.len() - i,
        {
            assert(ds.skip(i as int).drop_first() =~= ds.skip(i + 1));
            if self.type_decls[i].id.name == id.name {
                return Some(&self.type_decls[i]);
            }
            i = i + 1;
        }
        None
    }

    pub fn get_sorted_members(&self, owner: &LuaMemberOwner) -> (r: Option<&Vec<LuaMember>>)
        ensures
            match r {
                Some(m) => find_members(self.view().members, owner.view()) == Some(
                    members_view(m@),
                ),
                None => find_members(self.view().members, owner.view()) is None,
            },
    {
        let ghost ms = self.view().members;
        let mut i: usize = 0;
        assert(ms.skip(0) =~= ms);
        while i < self.members.len()
            invariant
                i <= self.members.len(),
                ms == self.view().members,
                find_members(ms, owner.view()) == find_members(ms.skip(i as int), owner.view()),
            decreases self.members.len() - i,
        {
            assert(ms.skip(i as int).drop_first() =~= ms.skip(i + 1));
            if owner_eq(&self.members[i].owner, owner) {
                return Some(&self.members[i].members);
            }
            i = i + 1;
        }
        None
    }

    pub fn get_signature(&self, id: u32) -> (r: Option<&LuaSignature>)
        ensures
            match r {
                Some(s) => find_sig(self.view().sigs, id) == Some(s.view()),
                None => find_sig(self.view().sigs, id) is None,
            },
    {
        let ghost ss = self.view().sigs;
        let mut i: usize = 0;
        assert(ss.skip(0) =~= ss);
        while i < self.signatures.len()
            invariant
                i <= self.signatures.len(),
                ss == self.view().sigs,
                find_sig(ss, id) == find_sig(ss.skip(i as int), id),
            decreases self.signatures.len() - i,
        {
            assert(ss.skip(i as int).drop_first() =~= ss.skip(i + 1));
            if self.signatures[i].id == id {
                return Some(&self.signatures[i]);
            }
            i = i + 1;
        }
        None
    }

    pub fn get_module(&self, file_id: FileId) -> (r: Option<&ModuleInfo>)
        ensures
            match r {
                Some(m) => find_module(self.view().modules, file_id.id) == Some(
                    opt_type_view(m.export_type),
                ),
                None => find_module(self.view().modules, file_id.id) is None,
            },
    {
        let ghost ms = self.view().modules;
        let mut i: usize = 0;
        assert(ms.skip(0) =~= ms);
        while i < self.modules.len()
            invariant
                i <= self.modules.len(),
                ms == self.view().modules,
                find_module(ms, file_id.id) == find_module(ms.skip(i as int), file_id.id),
            decreases self.modules.len() - i,
        {
            assert(ms.skip(i as int).drop_first() =~= ms.skip(i + 1));
            if self.modules[i].file_id.id == file_id.id {
                return Some(&self.modules[i]);
            }
            i = i + 1;
        }
        None
    }

    /// The first module recorded under `require_path`.
    pub fn find_module(&self, require_path: &String) -> (r: Option<&ModuleInfo>)
        ensures
            match r {
                Some(m) => find_module_by_path(self.view().require_paths, require_path@) == Some(
                    m.file_id.id,
                ),
                None => find_module_by_path(self.view().require_paths, require_path@) is None,
            },
    {
        let ghost ps = self.view().require_paths;
        let mut i: usize = 0;
        assert(ps.skip(0) =~= ps);
        while i < self.modules.len()
            invariant
                i <= self.modules.len(),
                ps == self.view().require_paths,
                find_module_by_path(ps, require_path@) == find_module_by_path(
                    ps.skip(i as int),
                    require_path@,
                ),
            decreases self.modules.len() - i,
        {
            assert(ps.skip(i as int).drop_first() =~= ps.skip(i + 1));
            if self.modules[i].require_path.eq(require_path) {
                return Some(&self.modules[i]);
            }
            i = i + 1;
        }
        None
    }
}

} // verus!
