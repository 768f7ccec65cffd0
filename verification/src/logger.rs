use vstd::prelude::*;

use crate::db_index::strings_view;
use crate::humanize_type::write_joined;
use crate::render_spec::{join, take_n};
use crate::text::{push_char, push_str};

verus! {

/// Characters that separate the parts of a workspace path.
pub open spec fn is_path_sep(c: char) -> bool {
    c == '/' || c == '\\' || c == ':'
}

/// `s` without its leading slashes.
pub open spec fn trim_leading_slashes(s: Seq<char>) -> Seq<char>
    decreases s.len(),
{
    if s.len() > 0 && s[0] == '/' {
        trim_leading_slashes(s.drop_first())
    } else {
        s
    }
}

/// `s` cut at every separator; `n` separators give `n + 1` pieces, some
/// of them empty.
pub open spec fn path_pieces(s: Seq<char>) -> Seq<Seq<char>>
    decreases s.len(),
{
    if s.len() == 0 {
        seq![Seq::<char>::empty()]
    } else {
        let p = path_pieces(s.drop_last());
        if is_path_sep(s.last()) {
            p.push(Seq::<char>::empty())
        } else {
            p.update(p.len() - 1, p.last().push(s.last()))
        }
    }
}

/// The pieces that are not empty, in order.
pub open spec fn non_empty(ps: Seq<Seq<char>>) -> Seq<Seq<char>>
    decreases ps.len(),
{
    if ps.len() == 0 {
        Seq::empty()
    } else if ps.last().len() > 0 {
        non_empty(ps.drop_last()).push(ps.last())
    } else {
        non_empty(ps.drop_last())
    }
}

/// The name of the log file for a workspace root: `root` for no root or the
/// file-system root, otherwise the non-empty parts of the path joined by `_`.
pub open spec fn log_file_stem_of(root: Seq<char>) -> Seq<char> {
    if root.len() == 0 || root == seq!['/'] {
        seq!['r', 'o', 'o', 't']
    } else {
        join(non_empty(path_pieces(trim_leading_slashes(root))), seq!['_'])
    }
}

proof fn lemma_pieces_not_empty(s: Seq<char>)
    ensures
        path_pieces(s).len() >= 1,
    decreases s.len(),
{
    if s.len() > 0 {
        lemma_pieces_not_empty(s.drop_last());
    }
}

/// No character of `s` separates path parts.
pub open spec fn sep_free(s: Seq<char>) -> bool {
    forall|i: int| 0 <= i < s.len() ==> !is_path_sep(#[trigger] s[i])
}

proof fn lemma_pieces_sep_free(s: Seq<char>)
    ensures
        forall|j: int| 0 <= j < path_pieces(s).len() ==> sep_free(#[trigger] path_pieces(s)[j]),
    decreases s.len(),
{
    if s.len() > 0 {
        lemma_pieces_sep_free(s.drop_last());
        lemma_pieces_not_empty(s.drop_last());
        let p = path_pieces(s.drop_last());
        if !is_path_sep(s.last()) {
            let l = p.last().push(s.last());
            assert(sep_free(p[p.len() - 1]));
            assert forall|i: int| 0 <= i < l.len() implies !is_path_sep(#[trigger] l[i]) by {
                if i < l.len() - 1 {
                    assert(l[i] == p.last()[i]);
                }
            }
        } else {
            assert(sep_free(Seq::<char>::empty()));
        }
    }
}

proof fn lemma_non_empty_sep_free(ps: Seq<Seq<char>>)
    requires
        forall|j: int| 0 <= j < ps.len() ==> sep_free(#[trigger] ps[j]),
    ensures
        forall|j: int| 0 <= j < non_empty(ps).len() ==> sep_free(#[trigger] non_empty(ps)[j]),
    decreases ps.len(),
{
    if ps.len() > 0 {
        assert forall|j: int| 0 <= j < ps.drop_last().len() implies sep_free(
            #[trigger] ps.drop_last()[j],
        ) by {
            assert(ps.drop_last()[j] == ps[j]);
        }
        lemma_non_empty_sep_free(ps.drop_last());
        assert(sep_free(ps[ps.len() - 1]));
        let q = non_empty(ps.drop_last());
        if ps.last().len() > 0 {
            assert forall|j: int| 0 <= j < non_empty(ps).len() implies sep_free(
                #[trigger] non_empty(ps)[j],
            ) by {
                if j < q.len() {
                    assert(non_empty(ps)[j] == q[j]);
                } else {
                    assert(non_empty(ps)[j] == ps.last());
                }
            }
        }
    }
}

proof fn lemma_join_sep_free(ps: Seq<Seq<char>>)
    requires
        forall|j: int| 0 <= j < ps.len() ==> sep_free(#[trigger] ps[j]),
    ensures
        sep_free(join(ps, seq!['_'])),
    decreases ps.len(),
{
    if ps.len() > 0 {
        assert forall|j: int| 0 <= j < ps.drop_last().len() implies sep_free(
            #[trigger] ps.drop_last()[j],
        ) by {
            assert(ps.drop_last()[j] == ps[j]);
        }
        lemma_join_sep_free(ps.drop_last());
        let a = join(ps.drop_last(), seq!['_']);
        let b: Seq<char> = if ps.len() > 1 { seq!['_'] } else { Seq::empty() };
        let c = ps.last();
        assert(sep_free(ps[ps.len() - 1]));
        let r = a + b + c;
        assert forall|i: int| 0 <= i < r.len() implies !is_path_sep(#[trigger] r[i]) by {
            if i < a.len() {
                assert(r[i] == a[i]);
            } else if i < a.len() + b.len() {
                assert(r[i] == b[i - a.len()]);
            } else {
                assert(r[i] == c[i - a.len() - b.len()]);
            }
        }
    }
}

/// A log file name never holds a path separator.
pub proof fn lemma_log_file_stem_sep_free(root: Seq<char>)
    ensures
        sep_free(log_file_stem_of(root)),
{
    if !(root.len() == 0 || root == seq!['/']) {
        let t = trim_leading_slashes(root);
        lemma_pieces_sep_free(t);
        lemma_non_empty_sep_free(path_pieces(t));
        lemma_join_sep_free(non_empty(path_pieces(t)));
    } else {
        let r = seq!['r', 'o', 'o', 't'];
        assert(sep_free(r));
    }
}

// ─── which characters are kept ──────────────────────────────────────────────

/// `s` holds none of `/`, `\` and `:`.
pub open spec fn plain_part(s: Seq<char>) -> bool {
    forall|i: int| 0 <= i < s.len() ==> #[trigger] s[i] != '/' && s[i] != '\\' && s[i] != ':'
}

proof fn lemma_pieces_append_plain(x: Seq<char>, y: Seq<char>)
    requires
        plain_part(y),
    ensures
        path_pieces(x + y) == path_pieces(x).update(
            path_pieces(x).len() - 1,
            path_pieces(x).last() + y,
        ),
    decreases y.len(),
{
    lemma_pieces_not_empty(x);
    if y.len() == 0 {
        assert(x + y =~= x);
        assert(path_pieces(x).last() + y =~= path_pieces(x).last());
        assert(path_pieces(x).update(path_pieces(x).len() - 1, path_pieces(x).last())
            =~= path_pieces(x));
    } else {
        let y0 = y.drop_last();
        assert(plain_part(y0)) by {
            assert forall|i: int| 0 <= i < y0.len() implies #[trigger] y0[i] != '/' && y0[i]
                != '\\' && y0[i] != ':' by {
                assert(y0[i] == y[i]);
            }
        }
        lemma_pieces_append_plain(x, y0);
        let c = y.last();
        assert(c == y[y.len() - 1]);
        assert(!is_path_sep(c));
        assert((x + y).drop_last() =~= x + y0);
        assert((x + y).last() == c);
        let p = path_pieces(x);
        let q = path_pieces(x + y0);
        assert(q.len() == p.len());
        assert(q.last() == p.last() + y0);
        assert(path_pieces(x + y) == q.update(q.len() - 1, q.last().push(c)));
        assert((p.last() + y0).push(c) =~= p.last() + y);
        assert(path_pieces(x + y) =~= p.update(p.len() - 1, p.last() + y));
    }
}

proof fn lemma_stem_of_plain_pieces(s: Seq<char>, ps: Seq<Seq<char>>)
    requires
        s.len() > 0,
        s[0] != '/',
        path_pieces(s) == ps,
    ensures
        log_file_stem_of(s) == join(non_empty(ps), seq!['_']),
{
    if s == seq!['/'] {
        assert(s[0] == '/');
    }
}

/// Only `/`, `\` and `:` separate the parts of a root; every other
/// character is kept. A root without any of them (and not empty) names the
/// log file as it is, and a root made of two such parts around one separator
/// gives the parts joined by `_`; leading slashes are dropped.
pub proof fn lemma_log_file_stem_keeps_parts(a: Seq<char>, b: Seq<char>, c: char)
    requires
        a.len() > 0,
        b.len() > 0,
        plain_part(a),
        plain_part(b),
        c == '/' || c == '\\' || c == ':',
    ensures
        log_file_stem_of(a) == a,
        log_file_stem_of(a + seq![c] + b) == a + seq!['_'] + b,
        log_file_stem_of(seq!['/'] + a) == a,
{
    let e = Seq::<char>::empty();
    assert(a[0] != '/');
    // a alone
    lemma_pieces_append_plain(e, a);
    assert(e + a =~= a);
    assert(path_pieces(e) == seq![e]);
    assert(path_pieces(a) =~= seq![a]);
    assert(seq![a].drop_last() =~= Seq::<Seq<char>>::empty());
    assert(non_empty(Seq::<Seq<char>>::empty()) =~= Seq::<Seq<char>>::empty());
    assert(seq![a].last() == a);
    assert(non_empty(seq![a]) == non_empty(Seq::<Seq<char>>::empty()).push(a));
    assert(non_empty(seq![a]) =~= seq![a]);
    assert(join(Seq::<Seq<char>>::empty(), seq!['_']) =~= e);
    assert(join(seq![a], seq!['_']) =~= a);
    lemma_stem_of_plain_pieces(a, seq![a]);
    // a, separator, b
    let ac = a.push(c);
    assert(ac.drop_last() =~= a);
    assert(is_path_sep(c));
    assert(path_pieces(ac) =~= seq![a, e]);
    lemma_pieces_append_plain(ac, b);
    let s = a + seq![c] + b;
    assert(s =~= ac + b);
    assert(path_pieces(s) =~= seq![a, b]);
    assert(seq![a, b].drop_last() =~= seq![a]);
    assert(seq![a, b].last() == b);
    assert(non_empty(seq![a, b]) == non_empty(seq![a]).push(b));
    assert(non_empty(seq![a, b]) =~= seq![a, b]);
    assert(join(seq![a, b], seq!['_']) == join(seq![a], seq!['_']) + seq!['_'] + b);
    assert(s[0] == a[0]);
    lemma_stem_of_plain_pieces(s, seq![a, b]);
    // a leading slash
    let t = seq!['/'] + a;
    assert(t.len() > 1);
    assert(t[0] == '/');
    assert(t.drop_first() =~= a);
    assert(trim_leading_slashes(t) == trim_leading_slashes(a));
    assert(trim_leading_slashes(a) == a);
    if t == seq!['/'] {
        assert(t.len() == 1);
    }
}

/// The log file name (without extension) for the workspace `root`.
pub fn log_file_stem(root: &str) -> (r: String)
    ensures
        r@ == log_file_stem_of(root@),
{
    let n = root.unicode_len();
    if n == 0 || (n == 1 && root.get_char(0) == '/') {
        proof {
            if n == 1 {
                assert(root@ =~= seq!['/']);
            }
        }
        let mut r = String::new();
        push_str(&mut r, "root");
        proof {
            reveal_strlit("root");
            assert(r@ =~= seq!['r', 'o', 'o', 't']);
        }
        return r;
    }
    proof {
        if root@ == seq!['/'] {
            assert(root@[0] == '/');
        }
    }
    // skip the leading slashes
    let mut start: usize = 0;
    proof {
        assert(root@.skip(0) =~= root@);
    }
    while start < n && root.get_char(start) == '/'
        invariant
            start <= n,
            n == root@.len(),
            trim_leading_slashes(root@) == trim_leading_slashes(root@.skip(start as int)),
        decreases n - start,
    {
        proof {
            assert(root@.skip(start as int).drop_first() =~= root@.skip(start + 1));
        }
        start = start + 1;
    }
    let ghost t = root@.skip(start as int);
    proof {
        if start < n {
            assert(t[0] == root@[start as int]);
        }
        assert(trim_leading_slashes(t) == t);
    }
    // cut at the separators, keeping the non-empty pieces
    let mut parts: Vec<String> = Vec::new();
    let mut cur = String::new();
    let mut i: usize = start;
    proof {
        assert(t.take(0) =~= Seq::<char>::empty());
        assert(path_pieces(Seq::<char>::empty()) =~= seq![Seq::<char>::empty()]);
        assert(path_pieces(Seq::<char>::empty()).drop_last() =~= Seq::<Seq<char>>::empty());
        assert(strings_view(parts@) =~= Seq::<Seq<char>>::empty());
    }
    while i < n
        invariant
            start <= i <= n,
            n == root@.len(),
            t == root@.skip(start as int),
            path_pieces(t.take(i - start)).len() >= 1,
            path_pieces(t.take(i - start)).last() == cur@,
            strings_view(parts@) == non_empty(path_pieces(t.take(i - start)).drop_last()),
        decreases n - i,
    {
        let c = root.get_char(i);
        let ghost k = (i - start) as int;
        let ghost p = path_pieces(t.take(k));
        proof {
            assert(t.take(k + 1).drop_last() =~= t.take(k));
            assert(t.take(k + 1).last() == c);
        }
        if c == '/' || c == '\\' || c == ':' {
            if cur.unicode_len() > 0 {
                let ghost cv = cur@;
                let piece = cur;
                parts.push(piece);
                proof {
                    assert(strings_view(parts@) =~= strings_view(parts@.drop_last()).push(cv));
                    assert(parts@.drop_last() =~= parts@.take(parts@.len() - 1));
                }
                cur = String::new();
            } else {
                cur = String::new();
            }
            proof {
                let q = path_pieces(t.take(k + 1));
                assert(q == p.push(Seq::<char>::empty()));
                assert(q.drop_last() =~= p);
                assert(p =~= p.drop_last().push(p.last()));
            }
        } else {
            let ghost before = cur@;
            push_char(&mut cur, c);
            proof {
                let q = path_pieces(t.take(k + 1));
                assert(q == p.update(p.len() - 1, p.last().push(c)));
                assert(q.drop_last() =~= p.drop_last());
            }
        }
        i = i + 1;
    }
    proof {
        assert(t.take(n - start) =~= t);
    }
    let ghost before = parts@;
    let ghost cv = cur@;
    if cur.unicode_len() > 0 {
        parts.push(cur);
        proof {
            assert(strings_view(parts@) =~= strings_view(before).push(cv));
        }
    }
    proof {
        let p = path_pieces(t);
        assert(p.last() == cv);
        assert(strings_view(parts@) == non_empty(p));
        assert(trim_leading_slashes(root@) == t);
        assert(take_n(strings_view(parts@), parts@.len() as nat) == strings_view(parts@));
    }
    let mut r = String::new();
    let count = parts.len();
    write_joined(&parts, count, "_", &mut r);
    proof {
        reveal_strlit("_");
        assert("_"@ =~= seq!['_']);
        assert(r@ =~= join(strings_view(parts@), seq!['_']));
    }
    r
}

} // verus!
