use vstd::prelude::*;

use crate::db_index::{find_members, lemma_strings_view_len, members_view, opt_type_view, strings_view, DbIndex, DbView, LuaMember};
use crate::file_id::FileId;
use crate::key_order::{sorted_field_refs, sorted_fields};
use crate::instantiate::instantiate_type;
use crate::infer_session::{lemma_enter_then_exit_restores, InferSession};
use crate::lua_type::{
    AsyncState, is_function_v, is_nil_v,
    described_view, function_view, KeyV, lemma_described_view, pairs_view, lemma_pairs_view, fields_view, lemma_fields_view, lemma_params_view, params_view, LuaMemberOwner, lemma_types_view, object_view, types_view, variadic_view,
    LuaAliasCallKind, LuaFunctionType, LuaMemberKey, LuaObjectType, LuaType, LuaTypeDeclId, TypeV,
    VariadicType,
};
use crate::render_level::{level_after, union_items_at, RenderLevel};
use crate::render_spec::{
    call_kind_name, float_text, function_lines, join, member_type, r_field, r_member_lines,
    r_def, r_module_ref, r_ref, r_simple, r_union, r_union_collect, r_params, r_sig_params, r_doc_function, r_signature, returns_nil, described_types, r_ml_lines, r_multi_line_union, r_tc_lines, r_tc_simple, r_tc_members, r_table_const, r_fields, r_access, r_object, r_generic, split_members, UnionAcc, key_sep_text, opt_text, r_bounded, r_inner, r_list, r_type,
    take_n, HState,
};
use crate::text::{
    write_replacing_newlines,
    nat_digits,
    group_text, push_str, str_contains_char, write_bool, write_hover_escape_string, write_i64,
    write_usize,
};

verus! {

broadcast use group_text;

/// Depth bound of a new humanizer.
pub const DEFAULT_MAX_DEPTH: u8 = 12;

/// Marker handed out by `guard`; give it back to `leave_guard`.
pub struct DepthGuardToken;

/// Core writer-based type humanizer. Prevents infinite recursion through
/// depth tracking and cycle detection.
pub struct TypeHumanizer<'a> {
    db: &'a DbIndex,
    level: RenderLevel,
    depth: u8,
    max_depth: u8,
    infer_session: InferSession,
    /// Declarations being expanded, to break cycles from recursive aliases / refs.
    visited: Vec<LuaTypeDeclId>,
}

pub open spec fn ids_view(v: Seq<LuaTypeDeclId>) -> Seq<Seq<char>> {
    v.map_values(|id: LuaTypeDeclId| id.name@)
}

/// The state a new humanizer starts from.
pub open spec fn initial_state(db: DbView, level: RenderLevel) -> HState {
    HState {
        level,
        depth: 0,
        max_depth: DEFAULT_MAX_DEPTH,
        visited: Seq::empty(),
        session: crate::infer_session::InferSessionView {
            reentry_limit: db.reentry_limit,
            stack: Seq::empty(),
        },
    }
}

impl<'a> TypeHumanizer<'a> {
    pub closed spec fn state(&self) -> HState {
        HState {
            level: self.level,
            depth: self.depth,
            max_depth: self.max_depth,
            visited: ids_view(self.visited@),
            session: self.infer_session@,
        }
    }

    pub closed spec fn db_view(&self) -> DbView {
        self.db.view()
    }

    pub closed spec fn wf(&self) -> bool {
        self.infer_session.wf()
    }

    /// Well-formed, and with the state and index it had `before`.
    pub open spec fn restored(&self, before: &Self) -> bool {
        &&& self.wf()
        &&& self.state() == before.state()
        &&& self.db_view() == before.db_view()
    }

    pub fn new(db: &'a DbIndex, level: RenderLevel) -> (h: TypeHumanizer<'a>)
        ensures
            h.wf(),
            h.state() == initial_state(db.view(), level),
            h.db_view() == db.view(),
    {
        let h = TypeHumanizer {
            db,
            level,
            depth: 0,
            max_depth: DEFAULT_MAX_DEPTH,
            infer_session: InferSession::new(db.infer_reentry_limit),
            visited: Vec::new(),
        };
        proof {
            assert(ids_view(h.visited@) =~= Seq::<Seq<char>>::empty());
        }
        h
    }

    pub fn with_max_depth(self, max_depth: u8) -> (h: TypeHumanizer<'a>)
        requires
            self.wf(),
        ensures
            h.wf(),
            h.state() == (HState { max_depth, ..self.state() }),
            h.db_view() == self.db_view(),
    {
        let mut s = self;
        s.max_depth = max_depth;
        s
    }

    // ─── depth guard ────────────────────────────────────────────────

    /// Try to enter a deeper recursion level: `None` once the depth bound is
    /// reached, otherwise the depth goes up by one.
    fn guard(&mut self) -> (r: Option<DepthGuardToken>)
        ensures
            r is None <==> old(self).depth >= old(self).max_depth,
            r is None ==> *final(self) == *old(self),
            r is Some ==> *final(self) == (TypeHumanizer { depth: (old(self).depth + 1) as u8, ..*old(self) }),
    {
        if self.depth >= self.max_depth {
            return None;
        }
        self.depth = self.depth + 1;
        Some(DepthGuardToken)
    }

    fn leave_guard(&mut self, _token: DepthGuardToken)
        ensures
            *final(self) == (TypeHumanizer { depth: old(self).depth.saturating_sub(1), ..*old(self) }),
    {
        self.depth = self.depth.saturating_sub(1);
    }

    /// The child level (one step less detailed) for nested types.
    fn child_level(&self) -> (r: RenderLevel)
        ensures
            r == level_after(self.level),
    {
        self.level.next_level()
    }

    // ─── public entry point ─────────────────────────────────────────

    /// Write the humanized representation of `ty` into `w`.
    pub fn write_type(&mut self, ty: &LuaType, w: &mut String)
        requires
            old(self).wf(),
        ensures
            final(self).restored(old(self)),
            final(w)@ == old(w)@ + r_type(old(self).db_view(), old(self).state(), ty.view()),
        decreases old(self).state().max_depth - old(self).state().depth, 0int, 0int, TypeV::Nil,
    {
        let token = match self.guard() {
            Some(t) => t,
            None => {
                push_str(w, "...");
                return;
            },
        };
        self.write_type_inner(ty, w);
        self.leave_guard(token);
    }

    /// Write the items of `ts` (at most `limit` of them), separated by `sep`.
    fn write_list(&mut self, ts: &Vec<LuaType>, limit: usize, sep: &str, w: &mut String)
        requires
            old(self).wf(),
        ensures
            final(self).restored(old(self)),
            final(w)@ == old(w)@ + r_list(
                old(self).db_view(),
                old(self).state(),
                take_n(types_view(ts@), limit as nat),
                sep@,
            ),
        decreases old(self).state().max_depth - old(self).state().depth, 1int, 0int, TypeV::Nil,
    {
        let ghost st = self.state();
        let ghost db = self.db_view();
        let ghost tv = take_n(types_view(ts@), limit as nat);
        proof {
            lemma_types_view(ts@);
        }
        let n = if ts.len() < limit {
            ts.len()
        } else {
            limit
        };
        let mut i: usize = 0;
        while i < n
            invariant
                i <= n,
                n <= ts.len(),
                tv.len() == n,
                forall|j: int| 0 <= j < n ==> tv[j] == #[trigger] ts@[j].view(),
                self.wf(),
                self.state() == st,
                self.db_view() == db,
                w@ == old(w)@ + r_list(db, st, tv.take(i as int), sep@),
                st == old(self).state(),
            decreases n - i,
        {
            let ghost before = w@;
            if i > 0 {
                push_str(w, sep);
            }
            self.write_type(&ts[i], w);
            proof {
                let t1 = tv.take(i + 1);
                assert(t1.drop_last() =~= tv.take(i as int));
                assert(t1.last() == ts@[i as int].view());
                if i == 0 {
                    assert(before =~= old(w)@);
                }
            }
            i = i + 1;
        }
        proof {
            assert(tv.take(n as int) =~= tv);
        }
    }

    /// Write `open`, at most `max_items` of `ts` at the child level separated
    /// by `sep`, `dots` when some were left out, then `close`.
    fn write_bounded(
        &mut self,
        ts: &Vec<LuaType>,
        open: &str,
        sep: &str,
        dots: &str,
        close: &str,
        w: &mut String,
    )
        requires
            old(self).wf(),
        ensures
            final(self).restored(old(self)),
            final(w)@ == old(w)@ + r_bounded(
                old(self).db_view(),
                old(self).state(),
                types_view(ts@),
                open@,
                sep@,
                dots@,
                close@,
            ),
        decreases old(self).state().max_depth - old(self).state().depth, 4int, 0int, TypeV::Nil,
    {
        proof {
            lemma_types_view(ts@);
        }
        let num = self.level.max_items();
        push_str(w, open);
        let saved = self.level;
        self.level = self.child_level();
        self.write_list(ts, num, sep, w);
        self.level = saved;
        if ts.len() > num {
            push_str(w, dots);
        }
        push_str(w, close);
    }

    /// Whether `id` is among the declarations being expanded.
    fn visited_contains(&self, id: &LuaTypeDeclId) -> (r: bool)
        ensures
            r == self.state().visited.contains(id.name@),
    {
        let ghost vs = ids_view(self.visited@);
        let mut i: usize = 0;
        while i < self.visited.len()
            invariant
                i <= self.visited.len(),
                vs == ids_view(self.visited@),
                forall|j: int| 0 <= j < i ==> vs[j] != id.name@,
            decreases self.visited.len() - i,
        {
            if self.visited[i].name == id.name {
                assert(vs[i as int] == id.name@);
                return true;
            }
            i = i + 1;
        }
        false
    }

    /// Write a member as `key<sep>` then its type; below a detailed parent,
    /// literal types are announced by their base type.
    fn write_table_member_field(
        &mut self,
        member_key: &LuaMemberKey,
        ty: &LuaType,
        parent_level: RenderLevel,
        w: &mut String,
    )
        requires
            old(self).wf(),
        ensures
            final(self).restored(old(self)),
            final(w)@ == old(w)@ + r_field(
                old(self).db_view(),
                old(self).state(),
                member_key.view(),
                ty.view(),
                parent_level,
            ),
        decreases old(self).state().max_depth - old(self).state().depth, 2int, 0int, TypeV::Nil,
    {
        write_member_key_and_separator(member_key, parent_level, w);
        if parent_level == RenderLevel::Detailed {
            match ty {
                LuaType::IntegerConst(_) => push_str(w, "integer = "),
                LuaType::DocIntegerConst(_) => push_str(w, "integer = "),
                LuaType::FloatConst(_) => push_str(w, "number = "),
                LuaType::StringConst(_) => push_str(w, "string = "),
                LuaType::DocStringConst(_) => push_str(w, "string = "),
                LuaType::BooleanConst(_) => push_str(w, "boolean = "),
                _ => {},
            }
        }
        self.write_type(ty, w);
    }

    /// Write one line per non-function member (`members[member_vec[k]]`),
    /// counting from zero, and stop once `maxc` lines are written. Returns the count.
    fn write_member_lines(
        &mut self,
        members: &Vec<LuaMember>,
        member_vec: &Vec<usize>,
        parent: RenderLevel,
        maxc: usize,
        w: &mut String,
    ) -> (count: usize)
        requires
            old(self).wf(),
            forall|q: int| 0 <= q < member_vec@.len() ==> member_vec@[q] < members@.len(),
        ensures
            final(self).restored(old(self)),
            count <= member_vec@.len(),
            final(w)@ == old(w)@ + r_member_lines(
                old(self).db_view(),
                old(self).state(),
                parent,
                picked_members(members_view(members@), member_vec@),
                0,
                maxc as nat,
            ).0,
            count == r_member_lines(
                old(self).db_view(),
                old(self).state(),
                parent,
                picked_members(members_view(members@), member_vec@),
                0,
                maxc as nat,
            ).1,
        decreases old(self).state().max_depth - old(self).state().depth, 3int, 0int, TypeV::Nil,
    {
        let ghost st = self.state();
        let ghost db = self.db_view();
        let ghost msv = members_view(members@);
        let ghost mv = picked_members(msv, member_vec@);
        let ghost maxn = maxc as nat;
        let ghost full1 = r_member_lines(db, st, parent, mv, 0, maxn);
        let any = LuaType::Any;
        let mut count: usize = 0;
        let ghost mut acc: Seq<char> = Seq::empty();
        let mut k: usize = 0;
        proof {
            assert(mv.skip(0) =~= mv);
        }
        while k < member_vec.len()
            invariant_except_break
                k <= member_vec.len(),
                count == k,
                full1 == ((acc + r_member_lines(db, st, parent, mv.skip(k as int), k as nat, maxn).0),
                    r_member_lines(db, st, parent, mv.skip(k as int), k as nat, maxn).1),
            invariant
                self.wf(),
                self.state() == st,
                self.db_view() == db,
                st == old(self).state(),
                w@ == old(w)@ + acc,
                mv.len() == member_vec@.len(),
                forall|q: int| 0 <= q < member_vec@.len() ==> member_vec@[q] < members@.len(),
                msv == members_view(members@),
                count <= member_vec.len(),
                any.view() == TypeV::Any,
                mv == picked_members(msv, member_vec@),
                full1 == r_member_lines(db, st, parent, mv, 0, maxn),
                maxn == maxc as nat,
            ensures
                full1.0 == acc,
                full1.1 == count,
                count <= member_vec.len(),
            decreases member_vec.len() - k,
        {
            let j = member_vec[k];
            let t = member_type_of(&members[j], &any);
            proof {
                assert(mv.skip(k as int)[0] == mv[k as int]);
                assert(mv.skip(k as int).drop_first() =~= mv.skip(k + 1));
                assert(msv[j as int] == members@[j as int].view());
            }
            let ghost line = "    "@ + r_field(db, st, mv[k as int].0, mv[k as int].1, parent) + ",\n"@;
            let ghost w_before = w@;
            push_str(w, "    ");
            self.write_table_member_field(&members[j].key, t, parent, w);
            push_str(w, ",\n");
            proof {
                assert(mv[k as int] == (msv[j as int].0, member_type(msv[j as int].1)));
                assert(members@[j as int].key.view() == mv[k as int].0);
                assert(t.view() == mv[k as int].1);
                assert(w@ == w_before + line);
                acc = acc + line;
                assert(w@ == old(w)@ + acc);
            }
            count = count + 1;
            if count >= maxc {
                break;
            }
            k = k + 1;
        }
        proof {
            if k == member_vec.len() {
                assert(mv.skip(k as int).len() == 0);
            }
        }
        count
    }

    /// Write the expanded `name { fields }` view of a declared type. Returns
    /// false (writing nothing) when the caller should write the plain name.
    #[verifier::rlimit(100)]
    fn write_simple_type(&mut self, id: &LuaTypeDeclId, name: &str, w: &mut String) -> (r: bool)
        requires
            old(self).wf(),
        ensures
            final(self).restored(old(self)),
            r == r_simple(old(self).db_view(), old(self).state(), id.name@, name@).0,
            final(w)@ == old(w)@ + r_simple(old(self).db_view(), old(self).state(), id.name@, name@).1,
        decreases old(self).state().max_depth - old(self).state().depth, 6int, 0int, TypeV::Nil,
    {
        let ghost st = self.state();
        let ghost db = self.db_view();
        let max_display_count = match self.level.max_display_count() {
            Some(n) => n,
            None => {
                push_str(w, name);
                return true;
            },
        };
        if self.visited_contains(id) {
            push_str(w, name);
            return true;
        }
        let dbi = self.db;
        let owner = LuaMemberOwner::Type(LuaTypeDeclId { name: id.name.clone() });
        let members = match dbi.get_sorted_members(&owner) {
            Some(m) => m,
            None => return false,
        };
        let ghost msv = members_view(members@);
        let n_members = members.len();
        let split = split_member_indices(members);
        let member_vec = split.0;
        let function_vec = split.1;
        let ghost mv = split_members(msv).0;
        let ghost fv = split_members(msv).1;
        if member_vec.len() == 0 && function_vec.len() == 0 {
            push_str(w, name);
            return true;
        }
        let all_count = member_vec.len() + function_vec.len();
        let ghost maxc = max_display_count as nat;
        let ghost w0 = w@;
        push_str(w, name);
        push_str(w, " {\n");
        let ghost base = w@;
        let saved = self.level;
        self.visited.push(LuaTypeDeclId { name: id.name.clone() });
        self.level = self.child_level();
        proof {
            assert(ids_view(self.visited@) =~= st.visited.push(id.name@));
        }
        let ghost st2 = st.visiting(id.name@).child();
        assert(self.state() == st2);
        let count1 = self.write_member_lines(members, &member_vec, saved, max_display_count, w);
        let ghost part1 = r_member_lines(db, st2, saved, mv, 0, maxc);
        let mut count = count1;
        let ghost p2 = if (count1 as nat) < all_count as nat {
            function_lines(fv, saved, count1 as nat, maxc)
        } else {
            (Seq::<char>::empty(), count1 as nat)
        };
        if count < all_count {
            count = write_function_lines(members, &function_vec, saved, count1, max_display_count, w);
        }
        proof {
            assert(w@ == base + part1.0 + p2.0);
            assert(count == p2.1);
        }
        let ghost base3 = w@;
        if count >= max_display_count {
            push_str(w, "    ...(+");
            write_usize(w, all_count - max_display_count);
            push_str(w, ")\n");
        }
        self.level = saved;
        let ghost vis_mid = self.visited@;
        proof {
            assert(ids_view(vis_mid) == st.visited.push(id.name@));
        }
        self.visited.pop();
        proof {
            assert(self.visited@ == vis_mid.drop_last());
            assert(ids_view(vis_mid.drop_last()) =~= ids_view(vis_mid).drop_last());
            assert(ids_view(self.visited@) =~= st.visited);
        }
        push_str(w, "}");
        proof {
            assert(w@ =~= w0 + (name@ + " {\n"@ + part1.0 + p2.0 + opt_text(
                count as nat >= maxc,
                "    ...(+"@ + nat_digits((all_count - maxc) as nat, 10) + ")\n"@,
            ) + "}"@));
        }
        true
    }

    fn write_ref_type(&mut self, id: &LuaTypeDeclId, w: &mut String)
        requires
            old(self).wf(),
        ensures
            final(self).restored(old(self)),
            final(w)@ == old(w)@ + r_inner(old(self).db_view(), old(self).state(), TypeV::Ref(id.name@)),
        decreases old(self).state().max_depth - old(self).state().depth, 7int, 0int, TypeV::Nil,
    {
        proof {
            assert(r_inner(self.db_view(), self.state(), TypeV::Ref(id.name@)) == r_ref(
                self.db_view(),
                self.state(),
                id.name@,
            ));
        }
        let dbi = self.db;
        match dbi.get_type_decl(id) {
            Some(type_decl) => {
                let name = type_decl.full_name.as_str();
                if !self.write_simple_type(id, name, w) {
                    push_str(w, name);
                }
            },
            None => push_str(w, id.get_name()),
        }
    }

    fn write_def_type(&mut self, id: &LuaTypeDeclId, w: &mut String)
        requires
            old(self).wf(),
        ensures
            final(self).restored(old(self)),
            final(w)@ == old(w)@ + r_inner(old(self).db_view(), old(self).state(), TypeV::Def(id.name@)),
        decreases old(self).state().max_depth - old(self).state().depth, 7int, 0int, TypeV::Nil,
    {
        proof {
            assert(r_inner(self.db_view(), self.state(), TypeV::Def(id.name@)) == r_def(
                self.db_view(),
                self.state(),
                id.name@,
            ));
        }
        let dbi = self.db;
        let type_decl = match dbi.get_type_decl(id) {
            Some(type_decl) => type_decl,
            None => {
                push_str(w, id.get_name());
                return;
            },
        };
        let full_name = type_decl.full_name.as_str();
        match &type_decl.generic_params {
            None => {
                if !self.write_simple_type(id, full_name, w) {
                    push_str(w, full_name);
                }
            },
            Some(generic) => {
                push_str(w, full_name);
                push_str(w, "<");
                write_joined(generic, generic.len(), ", ", w);
                proof {
                    assert(take_n(strings_view(generic@), generic@.len() as nat) == strings_view(
                        generic@,
                    ));
                }
                push_str(w, ">");
            },
        }
    }

    /// Write function parameters `name: type`, separated by ", ".
    fn write_params(&mut self, ps: &Vec<(String, Option<LuaType>)>, w: &mut String)
        requires
            old(self).wf(),
        ensures
            final(self).restored(old(self)),
            final(w)@ == old(w)@ + r_params(old(self).db_view(), old(self).state(), params_view(ps@)),
        decreases old(self).state().max_depth - old(self).state().depth, 1int, 0int, TypeV::Nil,
    {
        let ghost st = self.state();
        let ghost db = self.db_view();
        let ghost pv = params_view(ps@);
        proof {
            lemma_params_view(ps@);
        }
        let mut i: usize = 0;
        while i < ps.len()
            invariant
                i <= ps.len(),
                pv == params_view(ps@),
                pv.len() == ps@.len(),
                forall|j: int| 0 <= j < ps@.len() ==> pv[j] == (#[trigger] ps@[j].0@, opt_type_view(ps@[j].1)),
                self.wf(),
                self.state() == st,
                self.db_view() == db,
                st == old(self).state(),
                w@ == old(w)@ + r_params(db, st, pv.take(i as int)),
            decreases ps.len() - i,
        {
            let ghost before = w@;
            let param = &ps[i];
            if i > 0 {
                push_str(w, ", ");
            }
            push_str(w, param.0.as_str());
            match &param.1 {
                Some(ty) => {
                    push_str(w, ": ");
                    self.write_type(ty, w);
                },
                None => {},
            }
            proof {
                assert(pv.take(i + 1).drop_last() =~= pv.take(i as int));
                assert(pv.take(i + 1).last() == pv[i as int]);
                if i == 0 {
                    assert(before =~= old(w)@);
                }
            }
            i = i + 1;
        }
        proof {
            assert(pv.take(ps@.len() as int) =~= pv);
        }
    }

    /// Write signature parameters; the last one of a vararg signature gets "...".
    fn write_sig_params(&mut self, ps: &Vec<(String, Option<LuaType>)>, is_vararg: bool, w: &mut String)
        requires
            old(self).wf(),
        ensures
            final(self).restored(old(self)),
            final(w)@ == old(w)@ + r_sig_params(
                old(self).db_view(),
                old(self).state(),
                params_view(ps@),
                is_vararg,
                ps@.len(),
            ),
        decreases old(self).state().max_depth - old(self).state().depth, 1int, 0int, TypeV::Nil,
    {
        let ghost st = self.state();
        let ghost db = self.db_view();
        let ghost pv = params_view(ps@);
        proof {
            lemma_params_view(ps@);
        }
        let last_idx = ps.len();
        let mut i: usize = 0;
        while i < ps.len()
            invariant
                i <= ps.len(),
                last_idx == ps@.len(),
                pv == params_view(ps@),
                pv.len() == ps@.len(),
                forall|j: int| 0 <= j < ps@.len() ==> pv[j] == (#[trigger] ps@[j].0@, opt_type_view(ps@[j].1)),
                self.wf(),
                self.state() == st,
                self.db_view() == db,
                st == old(self).state(),
                w@ == old(w)@ + r_sig_params(db, st, pv.take(i as int), is_vararg, last_idx as nat),
            decreases ps.len() - i,
        {
            let ghost before = w@;
            let param = &ps[i];
            if i > 0 {
                push_str(w, ", ");
            }
            if i == last_idx - 1 && is_vararg {
                push_str(w, "...");
            }
            push_str(w, param.0.as_str());
            match &param.1 {
                Some(ty) => {
                    push_str(w, ": ");
                    self.write_type(ty, w);
                },
                None => {},
            }
            proof {
                assert(pv.take(i + 1).drop_last() =~= pv.take(i as int));
                assert(pv.take(i + 1).last() == pv[i as int]);
                assert(pv.take(i + 1).len() == i + 1);
                if i == 0 {
                    assert(before =~= old(w)@);
                }
            }
            i = i + 1;
        }
        proof {
            assert(pv.take(ps@.len() as int) =~= pv);
        }
    }

    /// Write the types of the first `limit` described members, separated by "|".
    fn write_described_types(&mut self, ms: &Vec<(LuaType, Option<String>)>, limit: usize, w: &mut String)
        requires
            old(self).wf(),
        ensures
            final(self).restored(old(self)),
            final(w)@ == old(w)@ + r_list(
                old(self).db_view(),
                old(self).state(),
                take_n(described_types(described_view(ms@)), limit as nat),
                "|"@,
            ),
        decreases old(self).state().max_depth - old(self).state().depth, 1int, 0int, TypeV::Nil,
    {
        let ghost st = self.state();
        let ghost db = self.db_view();
        let ghost tv = take_n(described_types(described_view(ms@)), limit as nat);
        proof {
            lemma_described_view(ms@);
        }
        let n = if ms.len() < limit {
            ms.len()
        } else {
            limit
        };
        let mut i: usize = 0;
        while i < n
            invariant
                i <= n,
                n <= ms.len(),
                tv.len() == n,
                forall|j: int| 0 <= j < n ==> tv[j] == #[trigger] ms@[j].0.view(),
                self.wf(),
                self.state() == st,
                self.db_view() == db,
                st == old(self).state(),
                w@ == old(w)@ + r_list(db, st, tv.take(i as int), "|"@),
            decreases n - i,
        {
            let ghost before = w@;
            if i > 0 {
                push_str(w, "|");
            }
            self.write_type(&ms[i].0, w);
            proof {
                let t1 = tv.take(i + 1);
                assert(t1.drop_last() =~= tv.take(i as int));
                assert(t1.last() == ms@[i as int].0.view());
                if i == 0 {
                    assert(before =~= old(w)@);
                }
            }
            i = i + 1;
        }
        proof {
            assert(tv.take(n as int) =~= tv);
        }
    }

    /// Write one `    | type -- description` line per member.
    fn write_described_lines(&mut self, ms: &Vec<(LuaType, Option<String>)>, w: &mut String)
        requires
            old(self).wf(),
        ensures
            final(self).restored(old(self)),
            final(w)@ == old(w)@ + r_ml_lines(old(self).db_view(), old(self).state(), described_view(ms@)),
        decreases old(self).state().max_depth - old(self).state().depth, 1int, 0int, TypeV::Nil,
    {
        let ghost st = self.state();
        let ghost db = self.db_view();
        let ghost dv = described_view(ms@);
        proof {
            lemma_described_view(ms@);
        }
        let mut i: usize = 0;
        while i < ms.len()
            invariant
                i <= ms.len(),
                dv == described_view(ms@),
                dv.len() == ms@.len(),
                forall|j: int| 0 <= j < ms@.len() ==> #[trigger] dv[j] == (ms@[j].0.view(), match ms@[j].1 {
                    Some(d) => Some(d@),
                    None => None,
                }),
                self.wf(),
                self.state() == st,
                self.db_view() == db,
                st == old(self).state(),
                w@ == old(w)@ + r_ml_lines(db, st, dv.take(i as int)),
            decreases ms.len() - i,
        {
            push_str(w, "    | ");
            self.write_type(&ms[i].0, w);
            match &ms[i].1 {
                Some(desc) => {
                    push_str(w, " -- ");
                    write_replacing_newlines(desc.as_str(), w);
                },
                None => {},
            }
            push_str(w, "\n");
            proof {
                let t1 = dv.take(i + 1);
                assert(t1.drop_last() =~= dv.take(i as int));
                assert(t1.last() == dv[i as int]);
            }
            i = i + 1;
        }
        proof {
            assert(dv.take(ms@.len() as int) =~= dv);
        }
    }

    /// Detailed table literal body: one line per member, cut after 12 lines.
    fn write_tc_lines(&mut self, members: &Vec<LuaMember>, parent: RenderLevel, w: &mut String)
        requires
            old(self).wf(),
        ensures
            final(self).restored(old(self)),
            final(w)@ == old(w)@ + r_tc_lines(
                old(self).db_view(),
                old(self).state(),
                parent,
                members_view(members@),
                0,
            ),
        decreases old(self).state().max_depth - old(self).state().depth, 3int, 0int, TypeV::Nil,
    {
        let ghost st = self.state();
        let ghost db = self.db_view();
        let ghost msv = members_view(members@);
        let ghost full = r_tc_lines(db, st, parent, msv, 0);
        let any = LuaType::Any;
        let mut total_line: usize = 0;
        let ghost mut acc: Seq<char> = Seq::empty();
        proof {
            assert(msv.skip(0) =~= msv);
        }
        while total_line < members.len()
            invariant_except_break
                total_line <= members.len(),
                full == acc + r_tc_lines(db, st, parent, msv.skip(total_line as int), total_line as nat),
            invariant
                self.wf(),
                self.state() == st,
                self.db_view() == db,
                st == old(self).state(),
                w@ == old(w)@ + acc,
                msv == members_view(members@),
                full == r_tc_lines(db, st, parent, msv, 0),
                any.view() == TypeV::Any,
            ensures
                full == acc,
            decreases members.len() - total_line,
        {
            let k = total_line;
            let m = &members[k];
            let t = member_type_of(m, &any);
            proof {
                assert(msv.skip(k as int)[0] == msv[k as int]);
                assert(msv.skip(k as int).drop_first() =~= msv.skip(k + 1));
                assert(msv[k as int] == members@[k as int].view());
            }
            let ghost line = "    "@ + r_field(db, st, msv[k as int].0, member_type(msv[k as int].1), parent) + ",\n"@;
            push_str(w, "    ");
            self.write_table_member_field(&m.key, t, parent, w);
            push_str(w, ",\n");
            proof {
                acc = acc + line;
            }
            total_line = total_line + 1;
            if total_line >= 12 {
                push_str(w, "    ...\n");
                proof {
                    acc = acc + "    ...\n"@;
                }
                break;
            }
        }
        proof {
            if total_line == members.len() {
                assert(msv.skip(total_line as int).len() == 0);
            }
        }
    }

    /// Simple table literal body: members separated by ", ", cut with ", ..."
    /// once the text passes 54 characters.
    fn write_tc_simple(&mut self, members: &Vec<LuaMember>, parent: RenderLevel, w: &mut String)
        requires
            old(self).wf(),
        ensures
            final(self).restored(old(self)),
            final(w)@ == old(w)@ + r_tc_simple(
                old(self).db_view(),
                old(self).state(),
                parent,
                members_view(members@),
                true,
                0,
            ),
        decreases old(self).state().max_depth - old(self).state().depth, 3int, 0int, TypeV::Nil,
    {
        let ghost st = self.state();
        let ghost db = self.db_view();
        let ghost msv = members_view(members@);
        let ghost full = r_tc_simple(db, st, parent, msv, true, 0);
        let any = LuaType::Any;
        let mut total_length: usize = 0;
        let mut first = true;
        let mut k: usize = 0;
        let ghost mut acc: Seq<char> = Seq::empty();
        proof {
            assert(msv.skip(0) =~= msv);
        }
        while k < members.len()
            invariant_except_break
                k <= members.len(),
                full == acc + r_tc_simple(db, st, parent, msv.skip(k as int), first, total_length as nat),
                total_length <= 54,
            invariant
                self.wf(),
                self.state() == st,
                self.db_view() == db,
                st == old(self).state(),
                w@ == old(w)@ + acc,
                msv == members_view(members@),
                full == r_tc_simple(db, st, parent, msv, true, 0),
                any.view() == TypeV::Any,
            ensures
                full == acc,
            decreases members.len() - k,
        {
            let m = &members[k];
            let t = member_type_of(m, &any);
            proof {
                assert(msv.skip(k as int)[0] == msv[k as int]);
                assert(msv.skip(k as int).drop_first() =~= msv.skip(k + 1));
                assert(msv[k as int] == members@[k as int].view());
            }
            let mut tmp = String::new();
            self.write_table_member_field(&m.key, t, parent, &mut tmp);
            let member_string_len = tmp.unicode_len();
            let ghost was_first = first;
            if !first {
                push_str(w, ", ");
                total_length = total_length + 2;
            }
            first = false;
            total_length = total_length.saturating_add(member_string_len);
            push_str(w, tmp.as_str());
            proof {
                acc = acc + opt_text(!was_first, ", "@) + tmp@;
            }
            if total_length > 54 {
                push_str(w, ", ...");
                proof {
                    acc = acc + ", ..."@;
                }
                break;
            }
            k = k + 1;
        }
        proof {
            if k == members.len() {
                assert(msv.skip(k as int).len() == 0);
            }
        }
    }

    /// Write a table literal's members at the detailed or simple level;
    /// false (writing nothing) when the literal has no recorded members.
    fn write_table_const_detail_or_simple(&mut self, member_owned: &LuaMemberOwner, w: &mut String) -> (r: bool)
        requires
            old(self).wf(),
        ensures
            final(self).restored(old(self)),
            match find_members(old(self).db_view().members, member_owned.view()) {
                None => !r && final(w)@ == old(w)@,
                Some(ms) => r && final(w)@ == old(w)@ + r_tc_members(
                    old(self).db_view(),
                    old(self).state(),
                    ms,
                ),
            },
        decreases old(self).state().max_depth - old(self).state().depth, 4int, 0int, TypeV::Nil,
    {
        let dbi = self.db;
        let members = match dbi.get_sorted_members(member_owned) {
            Some(m) => m,
            None => return false,
        };
        let is_detailed = self.level == RenderLevel::Detailed;
        if is_detailed {
            push_str(w, "{\n");
        } else {
            push_str(w, "{ ");
        }
        let saved = self.level;
        self.level = self.child_level();
        if is_detailed {
            self.write_tc_lines(members, saved, w);
        } else {
            self.write_tc_simple(members, saved, w);
        }
        self.level = saved;
        if is_detailed {
            push_str(w, "}");
        } else {
            push_str(w, " }");
        }
        true
    }

    /// Write object fields `key: type`, separated by ", " (at most `limit`).
    fn write_fields(&mut self, fs: &Vec<&(LuaMemberKey, LuaType)>, limit: usize, w: &mut String)
        requires
            old(self).wf(),
        ensures
            final(self).restored(old(self)),
            final(w)@ == old(w)@ + r_fields(
                old(self).db_view(),
                old(self).state(),
                take_n(refs_view(fs@), limit as nat),
            ),
        decreases old(self).state().max_depth - old(self).state().depth, 1int, 0int, TypeV::Nil,
    {
        let ghost st = self.state();
        let ghost db = self.db_view();
        let ghost fv = take_n(refs_view(fs@), limit as nat);
        let n = if fs.len() < limit {
            fs.len()
        } else {
            limit
        };
        let mut i: usize = 0;
        while i < n
            invariant
                i <= n,
                n <= fs.len(),
                fv.len() == n,
                forall|j: int| 0 <= j < n ==> fv[j] == (#[trigger] fs@[j].0.view(), fs@[j].1.view()),
                self.wf(),
                self.state() == st,
                self.db_view() == db,
                st == old(self).state(),
                w@ == old(w)@ + r_fields(db, st, fv.take(i as int)),
            decreases n - i,
        {
            let ghost before = w@;
            let field = fs[i];
            assert(fv[i as int] == (field.0.view(), field.1.view()));
            if i > 0 {
                push_str(w, ", ");
            }
            match &field.0 {
                LuaMemberKey::Integer(idx) => {
                    push_str(w, "[");
                    write_i64(w, *idx);
                    push_str(w, "]: ");
                    self.write_type(&field.1, w);
                },
                LuaMemberKey::Name(name) => {
                    push_str(w, name.as_str());
                    push_str(w, ": ");
                    self.write_type(&field.1, w);
                },
                _ => {
                    self.write_type(&field.1, w);
                },
            }
            proof {
                let t1 = fv.take(i + 1);
                assert(t1.drop_last() =~= fv.take(i as int));
                assert(t1.last() == fv[i as int]);
                if i == 0 {
                    assert(before =~= old(w)@);
                }
            }
            i = i + 1;
        }
        proof {
            assert(fv.take(n as int) =~= fv);
        }
    }

    /// Write index accesses `[key]: value`, separated by ",".
    fn write_access(&mut self, acc: &Vec<(LuaType, LuaType)>, w: &mut String)
        requires
            old(self).wf(),
        ensures
            final(self).restored(old(self)),
            final(w)@ == old(w)@ + r_access(old(self).db_view(), old(self).state(), pairs_view(acc@)),
        decreases old(self).state().max_depth - old(self).state().depth, 1int, 0int, TypeV::Nil,
    {
        let ghost st = self.state();
        let ghost db = self.db_view();
        let ghost av = pairs_view(acc@);
        proof {
            lemma_pairs_view(acc@);
        }
        let mut i: usize = 0;
        while i < acc.len()
            invariant
                i <= acc.len(),
                av == pairs_view(acc@),
                av.len() == acc@.len(),
                forall|j: int| 0 <= j < acc@.len() ==> #[trigger] av[j] == (acc@[j].0.view(), acc@[j].1.view()),
                self.wf(),
                self.state() == st,
                self.db_view() == db,
                st == old(self).state(),
                w@ == old(w)@ + r_access(db, st, av.take(i as int)),
            decreases acc.len() - i,
        {
            let ghost before = w@;
            if i > 0 {
                push_str(w, ",");
            }
            push_str(w, "[");
            self.write_type(&acc[i].0, w);
            push_str(w, "]: ");
            self.write_type(&acc[i].1, w);
            proof {
                let t1 = av.take(i + 1);
                assert(t1.drop_last() =~= av.take(i as int));
                assert(t1.last() == av[i as int]);
                if i == 0 {
                    assert(before =~= old(w)@);
                }
            }
            i = i + 1;
        }
        proof {
            assert(av.take(acc@.len() as int) =~= av);
        }
    }

    // ─── main dispatcher ────────────────────────────────────────────

    #[verifier::rlimit(50)]
    fn write_type_inner(&mut self, ty: &LuaType, w: &mut String)
        requires
            old(self).wf(),
        ensures
            final(self).restored(old(self)),
            final(w)@ == old(w)@ + r_inner(old(self).db_view(), old(self).state(), ty.view()),
        decreases old(self).state().max_depth - old(self).state().depth, 20int, 0int, ty.view(),
    {
        match ty {
            LuaType::Any => push_str(w, "any"),
            LuaType::Nil => push_str(w, "nil"),
            LuaType::Boolean => push_str(w, "boolean"),
            LuaType::Number => push_str(w, "number"),
            LuaType::String => push_str(w, "string"),
            LuaType::Table => push_str(w, "table"),
            LuaType::Function => push_str(w, "function"),
            LuaType::Thread => push_str(w, "thread"),
            LuaType::Userdata => push_str(w, "userdata"),
            LuaType::IntegerConst(i) => write_i64(w, *i),
            LuaType::FloatConst(s) => {
                if !str_contains_char(s.as_str(), '.') {
                    push_str(w, s.as_str());
                    push_str(w, ".0");
                } else {
                    push_str(w, s.as_str());
                }
            },
            LuaType::TableConst(e) => self.write_table_const_type(*e, w),
            LuaType::Global => push_str(w, "global"),
            LuaType::Def(id) => self.write_def_type(id, w),
            LuaType::Union(types) => self.write_union_type(types, w),
            LuaType::Tuple(types) => self.write_tuple_type(types, w),
            LuaType::Unknown => push_str(w, "unknown"),
            LuaType::Integer => push_str(w, "integer"),
            LuaType::Io => push_str(w, "io"),
            LuaType::SelfInfer => push_str(w, "self"),
            LuaType::BooleanConst(b) => write_bool(w, *b),
            LuaType::StringConst(s) => {
                push_str(w, "\"");
                write_hover_escape_string(s.as_str(), w);
                push_str(w, "\"");
            },
            LuaType::DocStringConst(s) => {
                push_str(w, "\"");
                write_hover_escape_string(s.as_str(), w);
                push_str(w, "\"");
            },
            LuaType::DocIntegerConst(i) => write_i64(w, *i),
            LuaType::DocBooleanConst(b) => write_bool(w, *b),
            LuaType::Ref(id) => self.write_ref_type(id, w),
            LuaType::Array(inner) => self.write_array_type(inner, w),
            LuaType::Call(kind, operands) => self.write_call_type(*kind, operands, w),
            LuaType::DocFunction(f) => self.write_doc_function_type(f, w),
            LuaType::Object(o) => self.write_object_type(o, w),
            LuaType::Intersection(types) => self.write_intersect_type(types, w),
            LuaType::Generic(id, params) => self.write_generic_type(id, params, w),
            LuaType::TableGeneric(params) => self.write_table_generic_type(params, w),
            LuaType::TplRef(_, name) => push_str(w, name.as_str()),
            LuaType::StrTplRef(prefix, name) => self.write_str_tpl_ref_type(prefix, name, w),
            LuaType::Variadic(v) => self.write_variadic_type(v, w),
            LuaType::Instance(base) => {
                proof {
                    let v = ty.view();
                    assert(v == TypeV::Instance(Box::new((**base).view())));
                    assert(decreases_to!(v => v->Instance_0));
                }
                self.write_type_inner(base, w)
            },
            LuaType::Signature(id) => self.write_signature_type(*id, w),
            LuaType::Namespace(ns) => {
                push_str(w, "{ ");
                push_str(w, ns.as_str());
                push_str(w, " }");
            },
            LuaType::MultiLineUnion(members) => self.write_multi_line_union_type(members, w),
            LuaType::TypeGuard(inner) => {
                push_str(w, "TypeGuard<");
                let saved = self.level;
                self.level = self.child_level();
                self.write_type(inner, w);
                self.level = saved;
                push_str(w, ">");
            },
            LuaType::ConstTplRef(name) => push_str(w, name.as_str()),
            LuaType::Language(s) => push_str(w, s.as_str()),
            LuaType::Conditional(c, t, f) => self.write_conditional_type(c, t, f, w),
            LuaType::ConditionalInfer(s) => push_str(w, s.as_str()),
            LuaType::Never => push_str(w, "never"),
            LuaType::ModuleRef(file_id) => self.write_module_ref(*file_id, w),
        }
    }

    fn write_tuple_type(&mut self, types: &Vec<LuaType>, w: &mut String)
        requires
            old(self).wf(),
        ensures
            final(self).restored(old(self)),
            final(w)@ == old(w)@ + r_bounded(old(self).db_view(), old(self).state(), types_view(types@), "("@, ","@, "..."@, ")"@),
        decreases old(self).state().max_depth - old(self).state().depth, 5int, 0int, TypeV::Nil,
    {
        self.write_bounded(types, "(", ",", "...", ")", w);
    }

    fn write_intersect_type(&mut self, types: &Vec<LuaType>, w: &mut String)
        requires
            old(self).wf(),
        ensures
            final(self).restored(old(self)),
            final(w)@ == old(w)@ + r_bounded(old(self).db_view(), old(self).state(), types_view(types@), "("@, " & "@, ", ..."@, ")"@),
        decreases old(self).state().max_depth - old(self).state().depth, 5int, 0int, TypeV::Nil,
    {
        self.write_bounded(types, "(", " & ", ", ...", ")", w);
    }

    fn write_table_generic_type(&mut self, params: &Vec<LuaType>, w: &mut String)
        requires
            old(self).wf(),
        ensures
            final(self).restored(old(self)),
            final(w)@ == old(w)@ + r_inner(old(self).db_view(), old(self).state(), TypeV::TableGeneric(types_view(params@))),
        decreases old(self).state().max_depth - old(self).state().depth, 5int, 0int, TypeV::Nil,
    {
        if self.level == RenderLevel::Minimal {
            push_str(w, "table<...>");
            return;
        }
        self.write_bounded(params, "table<", ",", ", ...", ">", w);
    }

    fn write_array_type(&mut self, inner: &LuaType, w: &mut String)
        requires
            old(self).wf(),
        ensures
            final(self).restored(old(self)),
            final(w)@ == old(w)@ + r_type(old(self).db_view(), old(self).state().child(), inner.view()) + "[]"@,
        decreases old(self).state().max_depth - old(self).state().depth, 5int, 0int, TypeV::Nil,
    {
        let saved = self.level;
        self.level = self.child_level();
        self.write_type(inner, w);
        self.level = saved;
        push_str(w, "[]");
    }

    fn write_call_type(&mut self, kind: LuaAliasCallKind, operands: &Vec<LuaType>, w: &mut String)
        requires
            old(self).wf(),
        ensures
            final(self).restored(old(self)),
            final(w)@ == old(w)@ + call_kind_name(kind) + "<"@ + r_list(old(self).db_view(), old(self).state().child(), types_view(operands@), ","@) + ">"@,
        decreases old(self).state().max_depth - old(self).state().depth, 5int, 0int, TypeV::Nil,
    {
        let basic = match kind {
            LuaAliasCallKind::Sub => "sub",
            LuaAliasCallKind::Add => "add",
            LuaAliasCallKind::KeyOf => "keyof",
            LuaAliasCallKind::Extends => "extends",
            LuaAliasCallKind::Select => "select",
            LuaAliasCallKind::Unpack => "unpack",
            LuaAliasCallKind::Index => "index",
            LuaAliasCallKind::RawGet => "rawget",
            LuaAliasCallKind::Merge => "Merge",
        };
        push_str(w, basic);
        push_str(w, "<");
        let saved = self.level;
        self.level = self.child_level();
        self.write_list(operands, operands.len(), ",", w);
        self.level = saved;
        proof {
            lemma_types_view(operands@);
            assert(take_n(types_view(operands@), operands@.len()) == types_view(operands@));
        }
        push_str(w, ">");
    }

    fn write_str_tpl_ref_type(&mut self, prefix: &String, name: &String, w: &mut String)
        requires
            old(self).wf(),
        ensures
            final(self).restored(old(self)),
            final(w)@ == old(w)@ + r_inner(old(self).db_view(), old(self).state(), TypeV::StrTplRef(prefix@, name@)),
        decreases old(self).state().max_depth - old(self).state().depth, 5int, 0int, TypeV::Nil,
    {
        if prefix.unicode_len() == 0 {
            push_str(w, name.as_str());
        } else {
            push_str(w, prefix.as_str());
            push_str(w, "`");
            push_str(w, name.as_str());
            push_str(w, "`");
        }
    }

    fn write_conditional_type(&mut self, cond: &LuaType, t: &LuaType, f: &LuaType, w: &mut String)
        requires
            old(self).wf(),
        ensures
            final(self).restored(old(self)),
            final(w)@ == old(w)@ + r_inner(old(self).db_view(), old(self).state(), TypeV::Conditional(Box::new(cond.view()), Box::new(t.view()), Box::new(f.view()))),
        decreases old(self).state().max_depth - old(self).state().depth, 5int, 0int, TypeV::Nil,
    {
        let saved = self.level;
        self.level = self.child_level();
        self.write_type(cond, w);
        push_str(w, " and ");
        self.write_type(t, w);
        push_str(w, " or ");
        self.write_type(f, w);
        self.level = saved;
    }

    fn write_variadic_type(&mut self, v: &VariadicType, w: &mut String)
        requires
            old(self).wf(),
        ensures
            final(self).restored(old(self)),
            final(w)@ == old(w)@ + r_inner(old(self).db_view(), old(self).state(), variadic_view(*v)),
        decreases old(self).state().max_depth - old(self).state().depth, 5int, 0int, TypeV::Nil,
    {
        match v {
            VariadicType::Base(base) => {
                self.write_type(base, w);
                push_str(w, " ...");
            },
            VariadicType::Multi(types) => {
                if self.level == RenderLevel::Minimal {
                    push_str(w, "multi<...>");
                    return;
                }
                self.write_bounded(types, "(", ",", ", ...", ")", w);
            },
        }
    }

    #[verifier::rlimit(30)]
    fn write_table_const_type(&mut self, e: u32, w: &mut String)
        requires
            old(self).wf(),
        ensures
            final(self).restored(old(self)),
            final(w)@ == old(w)@ + r_inner(old(self).db_view(), old(self).state(), TypeV::TableConst(e)),
        decreases old(self).state().max_depth - old(self).state().depth, 5int, 0int, TypeV::Nil,
    {
        proof {
            assert(r_inner(self.db_view(), self.state(), TypeV::TableConst(e)) == r_table_const(
                self.db_view(),
                self.state(),
                e,
            ));
        }
        if self.level == RenderLevel::Detailed || self.level == RenderLevel::Simple {
            let member_owner = LuaMemberOwner::Element(e);
            if !self.write_table_const_detail_or_simple(&member_owner, w) {
                push_str(w, "table");
            }
        } else {
            push_str(w, "table");
        }
    }

    fn write_union_type(&mut self, types: &Vec<LuaType>, w: &mut String)
        requires
            old(self).wf(),
        ensures
            final(self).restored(old(self)),
            final(w)@ == old(w)@ + r_inner(old(self).db_view(), old(self).state(), TypeV::Union(types_view(types@))),
        decreases old(self).state().max_depth - old(self).state().depth, 5int, 0int, TypeV::Nil,
    {
        let ghost st = self.state();
        let ghost db = self.db_view();
        let ghost tv = types_view(types@);
        proof {
            lemma_types_view(types@);
        }
        let num = self.level.max_union_items();
        let saved = self.level;
        self.level = self.child_level();
        let ghost stc = st.child();
        let mut keys: Vec<String> = Vec::new();
        let mut has_nil = false;
        let mut has_function = false;
        let mut i: usize = 0;
        proof {
            assert(tv.take(0) =~= Seq::<TypeV>::empty());
            assert(strings_view(keys@) =~= Seq::<Seq<char>>::empty());
        }
        while i < types.len()
            invariant
                i <= types.len(),
                tv == types_view(types@),
                tv.len() == types@.len(),
                forall|j: int| 0 <= j < types@.len() ==> tv[j] == #[trigger] types@[j].view(),
                self.wf(),
                self.state() == stc,
                self.db_view() == db,
                stc == old(self).state().child(),
                w@ == old(w)@,
                r_union_collect(db, stc, tv.take(i as int)) == (UnionAcc {
                    keys: strings_view(keys@),
                    has_nil,
                    has_function,
                }),
            decreases types.len() - i,
        {
            let ty = &types[i];
            proof {
                assert(tv.take(i + 1).drop_last() =~= tv.take(i as int));
                assert(tv.take(i + 1).last() == ty.view());
            }
            if ty.is_nil() {
                has_nil = true;
            } else {
                if ty.is_function() {
                    has_function = true;
                }
                let mut key = String::new();
                self.write_type(ty, &mut key);
                if !contains_string(&keys, &key) {
                    let ghost keys_before = keys@;
                    let ghost key_text = key@;
                    keys.push(key);
                    proof {
                        assert(strings_view(keys@) =~= strings_view(keys_before).push(key_text));
                    }
                }
            }
            i = i + 1;
        }
        self.level = saved;
        proof {
            assert(tv.take(types@.len() as int) =~= tv);
        }
        proof {
            assert(r_inner(db, st, TypeV::Union(tv)) == r_union(db, st, tv));
            lemma_strings_view_len(keys@);
        }
        let total = keys.len();
        let show_dots = total > num;
        let needs_parens = total > 1 || (total == 1 && has_function && has_nil);
        if needs_parens {
            push_str(w, "(");
        }
        write_joined(&keys, num, "|", w);
        if show_dots {
            push_str(w, "...");
        }
        if needs_parens {
            push_str(w, ")");
        }
        if has_nil {
            push_str(w, "?");
        }
    }

    fn write_doc_function_type(&mut self, f: &LuaFunctionType, w: &mut String)
        requires
            old(self).wf(),
        ensures
            final(self).restored(old(self)),
            final(w)@ == old(w)@ + r_inner(old(self).db_view(), old(self).state(), function_view(*f)),
        decreases old(self).state().max_depth - old(self).state().depth, 5int, 0int, TypeV::Nil,
    {
        proof {
            lemma_types_view(Seq::<LuaType>::empty());
            assert(r_inner(self.db_view(), self.state(), function_view(*f)) == r_doc_function(
                self.db_view(),
                self.state(),
                f.async_state,
                params_view(f.params@),
                f.ret.view(),
            ));
        }
        if self.level == RenderLevel::Minimal {
            push_str(w, "fun(...) -> ...");
            return;
        }
        match f.async_state {
            AsyncState::Plain => push_str(w, "fun"),
            AsyncState::Async => push_str(w, "async fun"),
            AsyncState::Sync => push_str(w, "sync fun"),
        }
        push_str(w, "(");
        let saved = self.level;
        self.level = self.child_level();
        self.write_params(&f.params, w);
        self.level = saved;
        push_str(w, ")");
        let ret_type = &f.ret;
        if returns_nil_type(ret_type) {
            return;
        }
        push_str(w, " -> ");
        let saved = self.level;
        self.level = self.child_level();
        self.write_type(ret_type, w);
        self.level = saved;
    }

    fn write_object_type(&mut self, o: &LuaObjectType, w: &mut String)
        requires
            old(self).wf(),
        ensures
            final(self).restored(old(self)),
            final(w)@ == old(w)@ + r_inner(old(self).db_view(), old(self).state(), object_view(*o)),
        decreases old(self).state().max_depth - old(self).state().depth, 5int, 0int, TypeV::Nil,
    {
        let ghost st = self.state();
        let ghost db = self.db_view();
        proof {
            lemma_fields_view(o.fields@);
            assert(r_inner(db, st, object_view(*o)) == r_object(
                db,
                st,
                fields_view(o.fields@),
                pairs_view(o.index_access@),
            ));
        }
        if self.level == RenderLevel::Minimal {
            push_str(w, "{...}");
            return;
        }
        let num = self.level.max_items();
        let fields = &o.fields;
        let dots = fields.len() > num;
        push_str(w, "{ ");
        let saved = self.level;
        self.level = self.child_level();
        let sorted = sorted_field_refs(fields);
        proof {
            assert forall|i: int| 0 <= i < sorted@.len() implies refs_view(sorted@)[i] == sorted_fields(fields_view(fields@))[i] by {
                assert(refs_view(sorted@)[i] == (sorted@[i].0.view(), sorted@[i].1.view()));
            }
            assert(refs_view(sorted@) =~= sorted_fields(fields_view(fields@)));
        }
        self.write_fields(&sorted, num, w);
        let access = &o.index_access;
        proof {
            lemma_pairs_view(access@);
        }
        if access.len() > 0 {
            if fields.len() > 0 {
                push_str(w, ", ");
            }
            self.write_access(access, w);
        }
        self.level = saved;
        if dots {
            push_str(w, ", ...");
        }
        push_str(w, " }");
    }

    fn write_generic_type(&mut self, id: &LuaTypeDeclId, params: &Vec<LuaType>, w: &mut String)
        requires
            old(self).wf(),
        ensures
            final(self).restored(old(self)),
            final(w)@ == old(w)@ + r_inner(old(self).db_view(), old(self).state(), TypeV::Generic(id.name@, types_view(params@))),
        decreases old(self).state().max_depth - old(self).state().depth, 5int, 0int, TypeV::Nil,
    {
        let ghost st = self.state();
        let ghost db = self.db_view();
        proof {
            lemma_types_view(params@);
            assert(r_inner(db, st, TypeV::Generic(id.name@, types_view(params@))) == r_generic(
                db,
                st,
                id.name@,
                types_view(params@),
            ));
        }
        let dbi = self.db;
        let type_decl = match dbi.get_type_decl(id) {
            Some(type_decl) => type_decl,
            None => {
                push_str(w, id.get_name());
                return;
            },
        };
        let full_name = type_decl.full_name.as_str();
        push_str(w, full_name);
        push_str(w, "<");
        let saved = self.level;
        self.level = self.child_level();
        self.write_list(params, params.len(), ",", w);
        proof {
            assert(take_n(types_view(params@), params@.len() as nat) == types_view(params@));
        }
        self.level = saved;
        push_str(w, ">");
        let detailed = match self.level {
            RenderLevel::Documentation => true,
            RenderLevel::CustomDetailed(_) => true,
            RenderLevel::Detailed => true,
            _ => false,
        };
        if detailed && type_decl.is_alias {
            if self.visited_contains(id) {
                return;
            }
            self.visited.push(LuaTypeDeclId { name: id.name.clone() });
            proof {
                assert(ids_view(self.visited@) =~= st.visited.push(id.name@));
            }
            match &type_decl.alias_origin {
                Some(origin) => {
                    let origin_type = instantiate_type(origin, params);
                    push_str(w, " = ");
                    let saved = self.level;
                    self.level = self.child_level();
                    self.write_type(&origin_type, w);
                    self.level = saved;
                },
                None => {},
            }
            let ghost vis_mid = self.visited@;
            self.visited.pop();
            proof {
                assert(ids_view(vis_mid.drop_last()) =~= ids_view(vis_mid).drop_last());
                assert(ids_view(self.visited@) =~= st.visited);
            }
        }
    }

    fn write_signature_type(&mut self, id: u32, w: &mut String)
        requires
            old(self).wf(),
        ensures
            final(self).restored(old(self)),
            final(w)@ == old(w)@ + r_inner(old(self).db_view(), old(self).state(), TypeV::Signature(id)),
        decreases old(self).state().max_depth - old(self).state().depth, 5int, 0int, TypeV::Nil,
    {
        proof {
            assert(r_inner(self.db_view(), self.state(), TypeV::Signature(id)) == r_signature(
                self.db_view(),
                self.state(),
                id,
            ));
        }
        if self.level == RenderLevel::Minimal {
            push_str(w, "fun(...) -> ...");
            return;
        }
        let dbi = self.db;
        let signature = match dbi.get_signature(id) {
            Some(sig) => sig,
            None => {
                push_str(w, "unknown");
                return;
            },
        };
        proof {
            lemma_strings_view_len(signature.generic_params@);
            lemma_types_view(signature.return_docs@);
            lemma_params_view(signature.params@);
        }
        let generics = &signature.generic_params;
        if generics.len() > 0 {
            push_str(w, "fun<");
            write_joined(generics, generics.len(), ", ", w);
            proof {
                assert(take_n(strings_view(generics@), generics@.len() as nat) == strings_view(generics@));
            }
            push_str(w, ">");
        } else {
            push_str(w, "fun");
        }
        push_str(w, "(");
        let saved = self.level;
        self.level = self.child_level();
        self.write_sig_params(&signature.params, signature.is_vararg, w);
        self.level = saved;
        push_str(w, ")");
        if returns_nil_type(&signature.return_type) {
            return;
        }
        if signature.return_docs.len() == 0 {
            return;
        }
        push_str(w, " -> ");
        let saved = self.level;
        self.level = self.child_level();
        self.write_list(&signature.return_docs, signature.return_docs.len(), ",", w);
        proof {
            assert(take_n(types_view(signature.return_docs@), signature.return_docs@.len() as nat)
                == types_view(signature.return_docs@));
        }
        self.level = saved;
    }

    fn write_multi_line_union_type(&mut self, members: &Vec<(LuaType, Option<String>)>, w: &mut String)
        requires
            old(self).wf(),
        ensures
            final(self).restored(old(self)),
            final(w)@ == old(w)@ + r_inner(old(self).db_view(), old(self).state(), TypeV::MultiLineUnion(described_view(members@))),
        decreases old(self).state().max_depth - old(self).state().depth, 5int, 0int, TypeV::Nil,
    {
        let ghost st = self.state();
        let ghost db = self.db_view();
        proof {
            lemma_described_view(members@);
            assert(r_inner(db, st, TypeV::MultiLineUnion(described_view(members@)))
                == r_multi_line_union(db, st, described_view(members@)));
        }
        let num = self.level.max_items();
        push_str(w, "(");
        let saved = self.level;
        self.level = self.child_level();
        self.write_described_types(members, num, w);
        self.level = saved;
        if members.len() > num {
            push_str(w, "...");
        }
        push_str(w, ")");
        if saved != RenderLevel::Detailed {
            return;
        }
        push_str(w, "\n");
        let saved_level = self.level;
        self.level = RenderLevel::Minimal;
        self.write_described_lines(members, w);
        self.level = saved_level;
    }

    fn write_module_ref(&mut self, file_id: FileId, w: &mut String)
        requires
            old(self).wf(),
        ensures
            final(self).restored(old(self)),
            final(w)@ == old(w)@ + r_inner(old(self).db_view(), old(self).state(), TypeV::ModuleRef(file_id.id)),
        decreases old(self).state().max_depth - old(self).state().depth, 5int, 0int, TypeV::Nil,
    {
        proof {
            assert(FileId { id: file_id.id } == file_id);
            assert(r_inner(self.db_view(), self.state(), TypeV::ModuleRef(file_id.id))
                == r_module_ref(self.db_view(), self.state(), file_id.id));
        }
        let scope = match self.infer_session.enter(file_id) {
            Ok(scope) => scope,
            Err(_) => {
                push_str(w, "module 'recursive'");
                return;
            },
        };
        proof {
            lemma_enter_then_exit_restores(old(self).state().session, file_id);
        }
        let db = self.db;
        match db.get_module(file_id) {
            Some(module_info) => match &module_info.export_type {
                Some(export_type) => self.write_type(export_type, w),
                None => push_str(w, "module 'unknown'"),
            },
            None => push_str(w, "module 'unknown'"),
        }
        self.infer_session.exit_scope(scope);
    }
}

/// The non-function members picked by `idx`, each with its type (`any` when none was inferred).
pub open spec fn picked_members(msv: Seq<(KeyV, Option<TypeV>)>, idx: Seq<usize>) -> Seq<(KeyV, TypeV)> {
    idx.map_values(|j: usize| (msv[j as int].0, member_type(msv[j as int].1)))
}

/// The keys of the members picked by `idx`.
pub open spec fn picked_keys(msv: Seq<(KeyV, Option<TypeV>)>, idx: Seq<usize>) -> Seq<KeyV> {
    idx.map_values(|j: usize| msv[j as int].0)
}

/// The cached type of a member, or `any` when none was inferred.
fn member_type_of<'b>(m: &'b LuaMember, any: &'b LuaType) -> (r: &'b LuaType)
    requires
        any.view() == TypeV::Any,
    ensures
        r.view() == member_type(m.view().1),
{
    match &m.type_cache {
        Some(t) => t,
        None => any,
    }
}

/// Positions of the non-function members and of the function members, in order.
fn split_member_indices(members: &Vec<LuaMember>) -> (r: (Vec<usize>, Vec<usize>))
    ensures
        forall|q: int| 0 <= q < r.0@.len() ==> r.0@[q] < members@.len(),
        forall|q: int| 0 <= q < r.1@.len() ==> r.1@[q] < members@.len(),
        r.0@.len() + r.1@.len() == members@.len(),
        split_members(members_view(members@)).0 == picked_members(members_view(members@), r.0@),
        split_members(members_view(members@)).1 == picked_keys(members_view(members@), r.1@),
{
    let ghost msv = members_view(members@);
    let any = LuaType::Any;
    let mut member_vec: Vec<usize> = Vec::new();
    let mut function_vec: Vec<usize> = Vec::new();
    let mut i: usize = 0;
    while i < members.len()
        invariant
            i <= members.len(),
            msv == members_view(members@),
            forall|k: int| 0 <= k < member_vec@.len() ==> member_vec@[k] < members@.len(),
            forall|k: int| 0 <= k < function_vec@.len() ==> function_vec@[k] < members@.len(),
            any.view() == TypeV::Any,
            member_vec@.len() + function_vec@.len() == i,
            split_members(msv.take(i as int)).0 == picked_members(msv, member_vec@),
            split_members(msv.take(i as int)).1 == picked_keys(msv, function_vec@),
        decreases members.len() - i,
    {
        let t = member_type_of(&members[i], &any);
        proof {
            assert(msv.take(i + 1).drop_last() =~= msv.take(i as int));
            assert(msv[i as int] == members@[i as int].view());
            assert(msv[i as int].1 == opt_type_view(members@[i as int].type_cache));
            assert(t.view() == member_type(msv[i as int].1));
        }
        if t.is_function() {
            function_vec.push(i);
            proof {
                assert(split_members(msv.take(i + 1)).1 =~= picked_keys(msv, function_vec@));
                assert(split_members(msv.take(i + 1)).0 =~= picked_members(msv, member_vec@));
            }
        } else {
            member_vec.push(i);
            proof {
                assert(split_members(msv.take(i + 1)).1 =~= picked_keys(msv, function_vec@));
                assert(split_members(msv.take(i + 1)).0 =~= picked_members(msv, member_vec@));
            }
        }
        i = i + 1;
    }
    proof {
        assert(msv.take(members@.len() as int) =~= msv);
    }
    (member_vec, function_vec)
}

/// Write one `key<sep>function,` line per function member, counting on from
/// `start` and stopping once `maxc` is reached. Returns the count.
fn write_function_lines(
    members: &Vec<LuaMember>,
    function_vec: &Vec<usize>,
    parent: RenderLevel,
    start: usize,
    maxc: usize,
    w: &mut String,
) -> (count: usize)
    requires
        forall|q: int| 0 <= q < function_vec@.len() ==> function_vec@[q] < members@.len(),
        start + function_vec@.len() <= usize::MAX,
    ensures
        count <= start + function_vec@.len(),
        final(w)@ == old(w)@ + function_lines(
            picked_keys(members_view(members@), function_vec@),
            parent,
            start as nat,
            maxc as nat,
        ).0,
        count == function_lines(
            picked_keys(members_view(members@), function_vec@),
            parent,
            start as nat,
            maxc as nat,
        ).1,
{
    let ghost msv = members_view(members@);
    let ghost fv = picked_keys(msv, function_vec@);
    let ghost maxn = maxc as nat;
    let ghost full2 = function_lines(fv, parent, start as nat, maxn);
    let mut count = start;
    let ghost mut acc: Seq<char> = Seq::empty();
    let mut k: usize = 0;
    proof {
        assert(fv.skip(0) =~= fv);
    }
    while k < function_vec.len()
        invariant_except_break
            k <= function_vec.len(),
            count == start + k,
            full2 == ((acc + function_lines(fv.skip(k as int), parent, (start + k) as nat, maxn).0),
                function_lines(fv.skip(k as int), parent, (start + k) as nat, maxn).1),
        invariant
            w@ == old(w)@ + acc,
            fv.len() == function_vec@.len(),
            forall|q: int| 0 <= q < function_vec@.len() ==> function_vec@[q] < members@.len(),
            msv == members_view(members@),
            start + function_vec@.len() <= usize::MAX,
            fv == picked_keys(msv, function_vec@),
            full2 == function_lines(fv, parent, start as nat, maxn),
            maxn == maxc as nat,
            count <= start + function_vec.len(),
        ensures
            full2.0 == acc,
            full2.1 == count,
            count <= start + function_vec.len(),
        decreases function_vec.len() - k,
    {
        let j = function_vec[k];
        proof {
            assert(fv.skip(k as int)[0] == fv[k as int]);
            assert(fv.skip(k as int).drop_first() =~= fv.skip(k + 1));
            assert(msv[j as int] == members@[j as int].view());
        }
        let ghost line = "    "@ + key_sep_text(fv[k as int], parent) + "function,\n"@;
        let ghost w_before = w@;
        push_str(w, "    ");
        write_member_key_and_separator(&members[j].key, parent, w);
        push_str(w, "function,\n");
        proof {
            assert(fv[k as int] == msv[j as int].0);
            assert(members@[j as int].key.view() == fv[k as int]);
            assert(w@ == w_before + line);
            acc = acc + line;
            assert(w@ == old(w)@ + acc);
        }
        count = count + 1;
        if count >= maxc {
            break;
        }
        k = k + 1;
    }
    proof {
        if k == function_vec.len() {
            assert(fv.skip(k as int).len() == 0);
        }
    }
    count
}

/// Write a member key followed by `": "` (detailed) or `" = "`; keys that are
/// neither names nor integers write nothing.
pub fn write_member_key_and_separator(member_key: &LuaMemberKey, level: RenderLevel, w: &mut String)
    ensures
        final(w)@ == old(w)@ + key_sep_text(member_key.view(), level),
{
    let separator = if level == RenderLevel::Detailed {
        ": "
    } else {
        " = "
    };
    match member_key {
        LuaMemberKey::Name(name) => {
            push_str(w, name.as_str());
            push_str(w, separator);
        },
        LuaMemberKey::Integer(i) => {
            push_str(w, "[");
            write_i64(w, *i);
            push_str(w, "]");
            push_str(w, separator);
        },
        _ => {},
    }
}

/// The model of a sequence of borrowed fields.
pub open spec fn refs_view(fs: Seq<&(LuaMemberKey, LuaType)>) -> Seq<(KeyV, TypeV)> {
    fs.map_values(|f: &(LuaMemberKey, LuaType)| (f.0.view(), f.1.view()))
}

/// The return type says "returns nothing": it is `nil`, or a variadic whose
/// first type is `nil`.
fn returns_nil_type(t: &LuaType) -> (r: bool)
    ensures
        r == returns_nil(t.view()),
{
    match t {
        LuaType::Variadic(v) => match &**v {
            VariadicType::Base(b) => b.is_nil(),
            VariadicType::Multi(ts) => {
                proof {
                    lemma_types_view(ts@);
                }
                ts.len() > 0 && ts[0].is_nil()
            },
        },
        _ => t.is_nil(),
    }
}

/// Whether `k` is one of `keys`.
pub fn contains_string(keys: &Vec<String>, k: &String) -> (r: bool)
    ensures
        r == strings_view(keys@).contains(k@),
{
    let ghost sv = strings_view(keys@);
    let mut i: usize = 0;
    while i < keys.len()
        invariant
            i <= keys.len(),
            sv == strings_view(keys@),
            forall|j: int| 0 <= j < i ==> sv[j] != k@,
        decreases keys.len() - i,
    {
        if keys[i] == *k {
            assert(sv[i as int] == k@);
            return true;
        }
        i = i + 1;
    }
    false
}

/// Write the first `limit` strings of `items` (all when fewer) separated by `sep`.
pub fn write_joined(items: &Vec<String>, limit: usize, sep: &str, w: &mut String)
    ensures
        final(w)@ == old(w)@ + join(take_n(strings_view(items@), limit as nat), sep@),
{
    let ghost sv = take_n(strings_view(items@), limit as nat);
    let n = if items.len() < limit {
        items.len()
    } else {
        limit
    };
    let mut i: usize = 0;
    while i < n
        invariant
            i <= n,
            n <= items.len(),
            sv.len() == n,
            forall|j: int| 0 <= j < n ==> sv[j] == #[trigger] items@[j]@,
            w@ == old(w)@ + join(sv.take(i as int), sep@),
        decreases n - i,
    {
        let ghost before = w@;
        if i > 0 {
            push_str(w, sep);
        }
        push_str(w, items[i].as_str());
        proof {
            assert(sv.take(i + 1).drop_last() =~= sv.take(i as int));
            if i == 0 {
                assert(before =~= old(w)@);
            }
        }
        i = i + 1;
    }
    proof {
        assert(sv.take(n as int) =~= sv);
    }
}


// ─── entry points ───────────────────────────────────────────────────────────

/// Humanize a type into a display string, with a fresh humanizer at `level`.
pub fn humanize_type(db: &DbIndex, ty: &LuaType, level: RenderLevel) -> (r: String)
    ensures
        r@ == r_type(db.view(), initial_state(db.view(), level), ty.view()),
{
    let mut humanizer = TypeHumanizer::new(db, level);
    let mut buf = String::new();
    humanizer.write_type(ty, &mut buf);
    buf
}

/// The distinct texts given for the non-nil members of a union (in order),
/// and whether a nil or a function member was seen.
pub open spec fn union_strings_collect(tys: Seq<TypeV>, outs: Seq<Seq<char>>) -> UnionAcc
    decreases tys.len(),
{
    if tys.len() == 0 {
        UnionAcc { keys: Seq::empty(), has_nil: false, has_function: false }
    } else {
        let a = union_strings_collect(tys.drop_last(), outs);
        let t = tys.last();
        if is_nil_v(t) {
            UnionAcc { has_nil: true, ..a }
        } else {
            let key = outs[tys.len() - 1];
            UnionAcc {
                keys: if a.keys.contains(key) {
                    a.keys
                } else {
                    a.keys.push(key)
                },
                has_nil: a.has_nil,
                has_function: a.has_function || is_function_v(t),
            }
        }
    }
}

/// A union written from the texts `outs[i]` of its non-nil members.
pub open spec fn union_strings_text(tys: Seq<TypeV>, outs: Seq<Seq<char>>, level: RenderLevel) -> Seq<
    char,
> {
    let a = union_strings_collect(tys, outs);
    let num = union_items_at(level);
    let display = take_n(a.keys, num);
    let type_str = join(display, "|"@);
    if display.len() == 1 {
        if a.has_function && a.has_nil {
            "("@ + type_str + ")?"@
        } else {
            type_str + opt_text(a.has_nil, "?"@)
        }
    } else {
        "("@ + type_str + opt_text(a.keys.len() > num, "..."@) + ")"@ + opt_text(a.has_nil, "?"@)
    }
}

/// The texts collected for a union are pairwise distinct and are exactly the
/// texts of its non-nil members; the nil and function marks say whether such
/// members occur.
pub proof fn lemma_union_strings_distinct(tys: Seq<TypeV>, outs: Seq<Seq<char>>)
    requires
        outs.len() == tys.len(),
    ensures
        union_strings_collect(tys, outs).keys.no_duplicates(),
        forall|i: int|
            0 <= i < tys.len() && !is_nil_v(tys[i]) ==> union_strings_collect(
                tys,
                outs,
            ).keys.contains(#[trigger] outs[i]),
        forall|k: Seq<char>| #[trigger]
            union_strings_collect(tys, outs).keys.contains(k) ==> exists|i: int|
                0 <= i < tys.len() && !is_nil_v(tys[i]) && outs[i] == k,
        union_strings_collect(tys, outs).has_nil <==> exists|i: int|
            0 <= i < tys.len() && is_nil_v(#[trigger] tys[i]),
        union_strings_collect(tys, outs).has_function <==> exists|i: int|
            0 <= i < tys.len() && !is_nil_v(tys[i]) && is_function_v(#[trigger] tys[i]),
    decreases tys.len(),
{
    if tys.len() > 0 {
        let n = tys.len() - 1;
        lemma_union_strings_distinct_prefix(tys, outs, n);
        assert(tys.take(n + 1) =~= tys);
    }
}

proof fn lemma_union_strings_distinct_prefix(tys: Seq<TypeV>, outs: Seq<Seq<char>>, n: int)
    requires
        outs.len() == tys.len(),
        0 <= n < tys.len(),
    ensures
        union_strings_collect(tys.take(n + 1), outs).keys.no_duplicates(),
        forall|i: int|
            0 <= i <= n && !is_nil_v(tys[i]) ==> union_strings_collect(
                tys.take(n + 1),
                outs,
            ).keys.contains(#[trigger] outs[i]),
        forall|k: Seq<char>| #[trigger]
            union_strings_collect(tys.take(n + 1), outs).keys.contains(k) ==> exists|i: int|
                0 <= i <= n && !is_nil_v(tys[i]) && outs[i] == k,
        union_strings_collect(tys.take(n + 1), outs).has_nil <==> exists|i: int|
            0 <= i <= n && is_nil_v(#[trigger] tys[i]),
        union_strings_collect(tys.take(n + 1), outs).has_function <==> exists|i: int|
            0 <= i <= n && !is_nil_v(tys[i]) && is_function_v(#[trigger] tys[i]),
    decreases n,
{
    let cur = tys.take(n + 1);
    let prev = tys.take(n);
    assert(cur.drop_last() =~= prev);
    assert(cur.last() == tys[n]);
    let r = union_strings_collect(cur, outs);
    if n == 0 {
        assert(prev =~= Seq::<TypeV>::empty());
        let a = union_strings_collect(prev, outs);
        assert(a.keys =~= Seq::<Seq<char>>::empty());
        if !is_nil_v(tys[0]) {
            assert(r.keys =~= seq![outs[0]]);
            assert(r.keys[0] == outs[0]);
        } else {
            assert(r.keys =~= Seq::<Seq<char>>::empty());
        }
    } else {
        lemma_union_strings_distinct_prefix(tys, outs, n - 1);
        assert(tys.take(n - 1 + 1) =~= prev);
        let a = union_strings_collect(prev, outs);
        assert forall|i: int|
            0 <= i <= n && !is_nil_v(tys[i]) implies r.keys.contains(#[trigger] outs[i]) by {
            if i < n {
                assert(a.keys.contains(outs[i]));
                let j = choose|j: int| 0 <= j < a.keys.len() && a.keys[j] == outs[i];
                assert(r.keys[j] == outs[i]);
            } else if !a.keys.contains(outs[n]) {
                assert(r.keys[a.keys.len() as int] == outs[n]);
            }
        }
        assert forall|k: Seq<char>| #[trigger] r.keys.contains(k) implies exists|i: int|
            0 <= i <= n && !is_nil_v(tys[i]) && outs[i] == k by {
            let j = choose|j: int| 0 <= j < r.keys.len() && r.keys[j] == k;
            if j < a.keys.len() {
                assert(a.keys[j] == k);
                assert(a.keys.contains(k));
            } else {
                assert(k == outs[n]);
            }
        }
        if exists|i: int| 0 <= i <= n && is_nil_v(#[trigger] tys[i]) {
            let i = choose|i: int| 0 <= i <= n && is_nil_v(#[trigger] tys[i]);
            if i < n {
                assert(a.has_nil);
            }
        }
        if exists|i: int| 0 <= i <= n && !is_nil_v(tys[i]) && is_function_v(#[trigger] tys[i]) {
            let i = choose|i: int| 0 <= i <= n && !is_nil_v(tys[i]) && is_function_v(#[trigger] tys[i]);
            if i < n {
                assert(a.has_function);
            }
        }
    }
}

/// A union whose members are all non-nil and all formatted to the same text
/// `t` is shown as just `t`.
pub proof fn lemma_union_strings_same_text(
    tys: Seq<TypeV>,
    outs: Seq<Seq<char>>,
    level: RenderLevel,
    t: Seq<char>,
)
    requires
        tys.len() > 0,
        outs.len() == tys.len(),
        union_items_at(level) >= 1,
        forall|i: int| 0 <= i < tys.len() ==> !is_nil_v(#[trigger] tys[i]) && outs[i] == t,
    ensures
        union_strings_text(tys, outs, level) == t,
{
    lemma_union_strings_distinct(tys, outs);
    let a = union_strings_collect(tys, outs);
    assert(!is_nil_v(tys[0]) && outs[0] == t);
    assert(a.keys.contains(t));
    assert forall|j: int| 0 <= j < a.keys.len() implies a.keys[j] == t by {
        assert(a.keys.contains(a.keys[j]));
    }
    if a.keys.len() > 1 {
        assert(a.keys[0] == a.keys[1]);
    }
    assert(a.keys.len() == 1);
    assert(!a.has_nil);
    assert(take_n(a.keys, union_items_at(level)) == a.keys);
    assert(a.keys =~= seq![t]);
    assert(seq![t].drop_last() =~= Seq::<Seq<char>>::empty());
    assert(join(Seq::<Seq<char>>::empty(), "|"@) =~= Seq::<char>::empty());
    assert(join(seq![t], "|"@) == join(Seq::<Seq<char>>::empty(), "|"@) + Seq::<char>::empty() + t);
    assert(join(seq![t], "|"@) =~= t);
}

/// Format a union from the texts already produced for its members
/// (`strings[i]` for `types[i]`; the texts of nil members are not read).
pub fn format_union_strings(types: &Vec<LuaType>, strings: &Vec<String>, level: RenderLevel) -> (r: String)
    requires
        strings@.len() == types@.len(),
    ensures
        r@ == union_strings_text(types_view(types@), strings_view(strings@), level),
{
    let ghost tv = types_view(types@);
    let ghost sv = strings_view(strings@);
    proof {
        lemma_types_view(types@);
        lemma_strings_view_len(strings@);
    }
    let num = level.max_union_items();
    let mut type_strings: Vec<String> = Vec::new();
    let mut has_nil = false;
    let mut has_function = false;
    let mut i: usize = 0;
    proof {
        assert(tv.take(0) =~= Seq::<TypeV>::empty());
        assert(strings_view(type_strings@) =~= Seq::<Seq<char>>::empty());
    }
    while i < types.len()
        invariant
            i <= types.len(),
            strings@.len() == types@.len(),
            tv == types_view(types@),
            sv == strings_view(strings@),
            tv.len() == types@.len(),
            sv.len() == strings@.len(),
            forall|j: int| 0 <= j < types@.len() ==> tv[j] == #[trigger] types@[j].view(),
            union_strings_collect(tv.take(i as int), sv) == (UnionAcc {
                keys: strings_view(type_strings@),
                has_nil,
                has_function,
            }),
        decreases types.len() - i,
    {
        let ty = &types[i];
        proof {
            assert(tv.take(i + 1).drop_last() =~= tv.take(i as int));
            assert(tv.take(i + 1).last() == ty.view());
            assert(sv[i as int] == strings@[i as int]@);
        }
        if ty.is_nil() {
            has_nil = true;
        } else {
            if ty.is_function() {
                has_function = true;
            }
            let type_str = &strings[i];
            if !contains_string(&type_strings, type_str) {
                let ghost before = type_strings@;
                type_strings.push(type_str.clone());
                proof {
                    assert(strings_view(type_strings@) =~= strings_view(before).push(type_str@));
                }
            }
        }
        i = i + 1;
    }
    proof {
        assert(tv.take(types@.len() as int) =~= tv);
        lemma_strings_view_len(type_strings@);
    }
    let shown = if type_strings.len() < num {
        type_strings.len()
    } else {
        num
    };
    let mut joined = String::new();
    write_joined(&type_strings, num, "|", &mut joined);
    let mut out = String::new();
    if shown == 1 {
        if has_function && has_nil {
            push_str(&mut out, "(");
            push_str(&mut out, joined.as_str());
            push_str(&mut out, ")?");
        } else {
            push_str(&mut out, joined.as_str());
            if has_nil {
                push_str(&mut out, "?");
            }
        }
    } else {
        push_str(&mut out, "(");
        push_str(&mut out, joined.as_str());
        if type_strings.len() > num {
            push_str(&mut out, "...");
        }
        push_str(&mut out, ")");
        if has_nil {
            push_str(&mut out, "?");
        }
    }
    out
}

/// Format a union type using a custom type formatter: each non-nil member
/// is formatted at the next level, equal texts are shown once, at most
/// `max_union_items` of them, joined by "|"; a nil member adds "?".
pub fn format_union_type<F: Fn(&LuaType, RenderLevel) -> String>(
    union: &Vec<LuaType>,
    level: RenderLevel,
    type_formatter: F,
) -> (r: String)
    requires
        forall|i: int|
            0 <= i < union@.len() && !is_nil_v(#[trigger] union@[i].view()) ==> call_requires(
                type_formatter,
                (&union@[i], level_after(level)),
            ),
    ensures
        exists|outs: Seq<String>|
            {
                &&& outs.len() == union@.len()
                &&& forall|i: int|
                    0 <= i < union@.len() && !is_nil_v(#[trigger] union@[i].view()) ==> call_ensures(
                        type_formatter,
                        (&union@[i], level_after(level)),
                        outs[i],
                    )
                &&& r@ == union_strings_text(types_view(union@), strings_view(outs), level)
            },
{
    let next = level.next_level();
    let mut strings: Vec<String> = Vec::new();
    let mut i: usize = 0;
    while i < union.len()
        invariant
            i <= union.len(),
            next == level_after(level),
            strings@.len() == i,
            forall|i: int|
                0 <= i < union@.len() && !is_nil_v(#[trigger] union@[i].view()) ==> call_requires(
                    type_formatter,
                    (&union@[i], level_after(level)),
                ),
            forall|j: int|
                0 <= j < i && !is_nil_v(#[trigger] union@[j].view()) ==> call_ensures(
                    type_formatter,
                    (&union@[j], level_after(level)),
                    strings@[j],
                ),
        decreases union.len() - i,
    {
        let ty = &union[i];
        if ty.is_nil() {
            strings.push(String::new());
        } else {
            let s = type_formatter(ty, next);
            strings.push(s);
        }
        i = i + 1;
    }
    format_union_strings(union, &strings, level)
}

} // verus!
