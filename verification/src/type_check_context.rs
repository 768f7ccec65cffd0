use vstd::prelude::*;

use crate::db_index::DbIndex;
use crate::infer_session::InferSession;
use crate::lua_type::{key_eq, KeyV, LuaMemberKey};

verus! {

/// How strictly a type check compares.
#[derive(Debug, Clone, Copy, PartialEq, Eq, Structural)]
pub enum TypeCheckCheckLevel {
    Normal,
    GenericConditional,
}

/// State shared by the steps of one type check.
pub struct TypeCheckContext<'db> {
    pub detail: bool,
    pub db: &'db DbIndex,
    pub level: TypeCheckCheckLevel,
    pub infer_session: InferSession,
    /// Keys of table members already checked, each at most once; `None` until
    /// the first key is marked.
    pub table_member_checked: Option<Vec<LuaMemberKey>>,
}

/// The keys of `v`, by value.
pub open spec fn keys_view(v: Seq<LuaMemberKey>) -> Seq<KeyV> {
    v.map_values(|k: LuaMemberKey| k.view())
}

/// The set of keys in `v`.
pub open spec fn key_set(v: Seq<LuaMemberKey>) -> Set<KeyV> {
    Set::new(|k: KeyV| keys_view(v).contains(k))
}

/// The checked keys after marking `k`, starting from `checked`.
pub open spec fn after_mark(checked: Option<Set<KeyV>>, k: KeyV) -> Set<KeyV> {
    match checked {
        Some(s) => s,
        None => Set::<KeyV>::empty(),
    }.insert(k)
}

/// A marked key reads as checked, marking it again changes nothing, and no
/// other key's answer changes.
pub proof fn lemma_mark_then_checked(checked: Option<Set<KeyV>>, k: KeyV, other: KeyV)
    ensures
        after_mark(checked, k).contains(k),
        after_mark(Some(after_mark(checked, k)), k) == after_mark(checked, k),
        other != k ==> (after_mark(checked, k).contains(other) <==> (match checked {
            Some(s) => s.contains(other),
            None => false,
        })),
{
    assert(after_mark(Some(after_mark(checked, k)), k) =~= after_mark(checked, k));
}

impl<'db> TypeCheckContext<'db> {
    /// The keys marked as checked so far, if any set was started.
    pub open spec fn checked_keys(&self) -> Option<Set<KeyV>> {
        match self.table_member_checked {
            Some(v) => Some(key_set(v@)),
            None => None,
        }
    }

    /// No key is recorded twice.
    pub open spec fn wf(&self) -> bool {
        match self.table_member_checked {
            Some(v) => keys_view(v@).no_duplicates(),
            None => true,
        }
    }

    /// A context with a fresh session whose limit is the configured
    /// `runtime.inferReentryLimit`.
    pub fn new(db: &'db DbIndex, detail: bool, level: TypeCheckCheckLevel) -> (r: Self)
        ensures
            r.wf(),
            r.detail == detail,
            r.db == db,
            r.level == level,
            r.infer_session.wf(),
            r.infer_session@.reentry_limit == db.infer_reentry_limit,
            r.infer_session@.stack == Seq::<crate::file_id::FileId>::empty(),
            r.checked_keys() is None,
    {
        Self::new_with_session(db, detail, level, InferSession::new(db.infer_reentry_limit))
    }

    /// A context whose file entries go into the given session. The session is
    /// moved in; the caller takes it back from `infer_session` when the check
    /// is done.
    pub fn new_with_session(
        db: &'db DbIndex,
        detail: bool,
        level: TypeCheckCheckLevel,
        infer_session: InferSession,
    ) -> (r: Self)
        ensures
            r.wf(),
            r.detail == detail,
            r.db == db,
            r.level == level,
            r.infer_session == infer_session,
            r.checked_keys() is None,
    {
        TypeCheckContext { detail, db, level, infer_session, table_member_checked: None }
    }

    /// Whether `key` was marked as checked.
    pub fn is_key_checked(&self, key: &LuaMemberKey) -> (r: bool)
        ensures
            r == (match self.checked_keys() {
                Some(s) => s.contains(key.view()),
                None => false,
            }),
    {
        match &self.table_member_checked {
            Some(checked) => {
                let mut i: usize = 0;
                while i < checked.len()
                    invariant
                        i <= checked@.len(),
                        self.checked_keys() == Some(key_set(checked@)),
                        forall|j: int| 0 <= j < i ==> checked@[j].view() != key.view(),
                    decreases checked.len() - i,
                {
                    if key_eq(&checked[i], key) {
                        proof {
                            assert(keys_view(checked@)[i as int] == key.view());
                            assert(keys_view(checked@).contains(key.view()));
                            assert(key_set(checked@).contains(key.view()));
                            assert(self.checked_keys() == Some(key_set(checked@)));
                        }
                        return true;
                    }
                    i = i + 1;
                }
                proof {
                    if key_set(checked@).contains(key.view()) {
                        let j = choose|j: int|
                            0 <= j < keys_view(checked@).len() && keys_view(checked@)[j] == key.view();
                        assert(checked@[j].view() == key.view());
                    }
                }
                false
            },
            None => false,
        }
    }

    /// Record `key` as checked, starting the set if needed.
    pub fn mark_key_checked(&mut self, key: LuaMemberKey)
        ensures
            final(self).detail == old(self).detail,
            final(self).db == old(self).db,
            final(self).level == old(self).level,
            final(self).infer_session == old(self).infer_session,
            final(self).checked_keys() == Some(after_mark(old(self).checked_keys(), key.view())),
            old(self).wf() ==> final(self).wf(),
    {
        if self.table_member_checked.is_none() {
            self.table_member_checked = Some(Vec::new());
            proof {
                assert(keys_view(Seq::<LuaMemberKey>::empty()) =~= Seq::<KeyV>::empty());
            }
        }
        let present = self.is_key_checked(&key);
        match &mut self.table_member_checked {
            Some(checked) => {
                let ghost before = checked@;
                if !present {
                    let ghost kv = key.view();
                    checked.push(key);
                    proof {
                        assert(keys_view(checked@) =~= keys_view(before).push(kv));
                        assert forall|k: KeyV| key_set(checked@).contains(k) == key_set(before).insert(kv).contains(k) by {
                            if keys_view(before).contains(k) {
                                let j = choose|j: int| 0 <= j < keys_view(before).len() && keys_view(before)[j] == k;
                                assert(keys_view(checked@)[j] == k);
                            }
                            if k == kv {
                                assert(keys_view(checked@)[before.len() as int] == k);
                            }
                        }
                        assert(key_set(checked@) =~= key_set(before).insert(kv));
                    }
                } else {
                    proof {
                        assert(key_set(before) =~= key_set(before).insert(key.view()));
                    }
                }
            },
            None => {},
        }
    }
}

} // verus!
