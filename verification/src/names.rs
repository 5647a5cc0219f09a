//! Ordered sets of names: strings kept in a vector in ascending
//! lexicographic order, each at most once.
use vstd::prelude::*;
use vstd::string::*;

use crate::text::string_views;

verus! {

/// Lexicographic order on character sequences, by code point. For strings
/// this is also the order of their UTF-8 bytes.
pub open spec fn lex_lt(a: Seq<char>, b: Seq<char>) -> bool
    decreases a.len(),
{
    if a.len() == 0 {
        b.len() > 0
    } else if b.len() == 0 {
        false
    } else if a[0] != b[0] {
        (a[0] as int) < (b[0] as int)
    } else {
        lex_lt(a.drop_first(), b.drop_first())
    }
}

pub proof fn lemma_lex_irreflexive(a: Seq<char>)
    ensures
        !lex_lt(a, a),
    decreases a.len(),
{
    if a.len() > 0 {
        lemma_lex_irreflexive(a.drop_first());
    }
}

pub proof fn lemma_lex_transitive(a: Seq<char>, b: Seq<char>, c: Seq<char>)
    requires
        lex_lt(a, b),
        lex_lt(b, c),
    ensures
        lex_lt(a, c),
    decreases a.len(),
{
    if a.len() > 0 && b.len() > 0 && c.len() > 0 && a[0] == b[0] && b[0] == c[0] {
        lemma_lex_transitive(a.drop_first(), b.drop_first(), c.drop_first());
    }
}

/// Two different sequences are ordered one way or the other.
pub proof fn lemma_lex_total(a: Seq<char>, b: Seq<char>)
    requires
        a != b,
    ensures
        lex_lt(a, b) || lex_lt(b, a),
    decreases a.len(),
{
    if a.len() > 0 && b.len() > 0 && a[0] == b[0] {
        if a.drop_first() == b.drop_first() {
            assert(a =~= seq![a[0]] + a.drop_first());
            assert(b =~= seq![b[0]] + b.drop_first());
        }
        lemma_lex_total(a.drop_first(), b.drop_first());
    } else if a.len() == 0 && b.len() == 0 {
        assert(a =~= b);
    }
}

pub proof fn lemma_lex_asymmetric(a: Seq<char>, b: Seq<char>)
    requires
        lex_lt(a, b),
    ensures
        !lex_lt(b, a),
{
    if lex_lt(b, a) {
        lemma_lex_transitive(a, b, a);
        lemma_lex_irreflexive(a);
    }
}

/// Is `a` before `b` in lexicographic order?
pub fn str_lt(a: &str, b: &str) -> (r: bool)
    ensures
        r == lex_lt(a@, b@),
{
    let n = a.unicode_len();
    let m = b.unicode_len();
    let mut i: usize = 0;
    assert(a@.skip(0) =~= a@);
    assert(b@.skip(0) =~= b@);
    while i < n && i < m
        invariant
            n == a@.len(),
            m == b@.len(),
            i <= n,
            i <= m,
            lex_lt(a@, b@) == lex_lt(a@.skip(i as int), b@.skip(i as int)),
        decreases n - i,
    {
        let x = a.get_char(i);
        let y = b.get_char(i);
        let ghost sa = a@.skip(i as int);
        let ghost sb = b@.skip(i as int);
        assert(sa[0] == x && sb[0] == y);
        if x != y {
            return (x as u32) < (y as u32);
        }
        assert(sa.drop_first() =~= a@.skip(i + 1));
        assert(sb.drop_first() =~= b@.skip(i + 1));
        i = i + 1;
    }
    assert(a@.skip(i as int).len() == n - i);
    i == n && i < m
}

/// Strictly ascending: each name is before every later one.
pub open spec fn sorted_names(v: Seq<Seq<char>>) -> bool {
    forall|i: int, j: int| 0 <= i < j < v.len() ==> lex_lt(#[trigger] v[i], #[trigger] v[j])
}

/// Insertion of `s` into an ascending sequence: before the first name that
/// follows it, unless it is already there.
pub open spec fn insert_name_spec(v: Seq<Seq<char>>, s: Seq<char>) -> Seq<Seq<char>>
    decreases v.len(),
{
    if v.len() == 0 {
        seq![s]
    } else if v[0] == s {
        v
    } else if lex_lt(s, v[0]) {
        seq![s] + v
    } else {
        seq![v[0]] + insert_name_spec(v.drop_first(), s)
    }
}

/// Inserts each name of `names` in turn.
pub open spec fn insert_names_spec(v: Seq<Seq<char>>, names: Seq<Seq<char>>) -> Seq<Seq<char>>
    decreases names.len(),
{
    if names.len() == 0 {
        v
    } else {
        insert_name_spec(insert_names_spec(v, names.drop_last()), names.last())
    }
}

/// Skipping a prefix of names that all come before `s`.
proof fn lemma_insert_name_skip(v: Seq<Seq<char>>, s: Seq<char>, i: int)
    requires
        0 <= i <= v.len(),
        forall|j: int| 0 <= j < i ==> lex_lt(#[trigger] v[j], s),
    ensures
        insert_name_spec(v, s) == v.take(i) + insert_name_spec(v.skip(i), s),
    decreases i,
{
    if i == 0 {
        assert(v.skip(0) =~= v);
        assert(v.take(0) + insert_name_spec(v, s) =~= insert_name_spec(v, s));
    } else {
        lemma_lex_irreflexive(s);
        lemma_lex_asymmetric(v[0], s);
        let w = v.drop_first();
        assert forall|j: int| 0 <= j < i - 1 implies lex_lt(#[trigger] w[j], s) by {
            assert(w[j] == v[j + 1]);
        }
        lemma_insert_name_skip(w, s, i - 1);
        assert(w.skip(i - 1) =~= v.skip(i));
        assert(seq![v[0]] + w.take(i - 1) =~= v.take(i));
        assert(seq![v[0]] + (w.take(i - 1) + insert_name_spec(v.skip(i), s)) =~= v.take(i) + insert_name_spec(
            v.skip(i),
            s,
        ));
    }
}

/// Insertion keeps the sequence ascending and adds exactly `s`.
pub proof fn lemma_insert_name(v: Seq<Seq<char>>, s: Seq<char>)
    requires
        sorted_names(v),
    ensures
        sorted_names(insert_name_spec(v, s)),
        forall|x: Seq<char>| #[trigger] insert_name_spec(v, s).contains(x) <==> (v.contains(x) || x == s),
    decreases v.len(),
{
    let r = insert_name_spec(v, s);
    if v.len() == 0 {
        assert(r[0] == s);
    } else if v[0] == s {
    } else if lex_lt(s, v[0]) {
        assert forall|i: int, j: int| 0 <= i < j < r.len() implies lex_lt(#[trigger] r[i], #[trigger] r[j]) by {
            if i == 0 {
                if j > 1 {
                    lemma_lex_transitive(s, v[0], v[j - 1]);
                }
            } else {
                assert(r[i] == v[i - 1] && r[j] == v[j - 1]);
            }
        }
        assert forall|x: Seq<char>| #[trigger] r.contains(x) <==> (v.contains(x) || x == s) by {
            if v.contains(x) {
                let k = choose|k: int| 0 <= k < v.len() && v[k] == x;
                assert(r[k + 1] == x);
            }
            if x == s {
                assert(r[0] == x);
            }
            if r.contains(x) {
                let k = choose|k: int| 0 <= k < r.len() && r[k] == x;
                if k > 0 {
                    assert(v[k - 1] == x);
                }
            }
        }
    } else {
        let w = v.drop_first();
        assert(sorted_names(w)) by {
            assert forall|i: int, j: int| 0 <= i < j < w.len() implies lex_lt(#[trigger] w[i], #[trigger] w[j]) by {
                assert(w[i] == v[i + 1] && w[j] == v[j + 1]);
            }
        }
        lemma_insert_name(w, s);
        let t = insert_name_spec(w, s);
        lemma_lex_total(s, v[0]);
        assert(lex_lt(v[0], s));
        assert forall|i: int, j: int| 0 <= i < j < r.len() implies lex_lt(#[trigger] r[i], #[trigger] r[j]) by {
            if i == 0 {
                assert(r[j] == t[j - 1]);
                assert(t.contains(t[j - 1]));
                if t[j - 1] != s {
                    assert(w.contains(t[j - 1]));
                    let k = choose|k: int| 0 <= k < w.len() && w[k] == t[j - 1];
                    assert(v[k + 1] == w[k]);
                }
            } else {
                assert(r[i] == t[i - 1] && r[j] == t[j - 1]);
            }
        }
        assert forall|x: Seq<char>| #[trigger] r.contains(x) <==> (v.contains(x) || x == s) by {
            if v.contains(x) {
                let k = choose|k: int| 0 <= k < v.len() && v[k] == x;
                if k == 0 {
                    assert(r[0] == x);
                } else {
                    assert(w[k - 1] == x);
                    assert(t.contains(x));
                    let m = choose|m: int| 0 <= m < t.len() && t[m] == x;
                    assert(r[m + 1] == x);
                }
            }
            if x == s {
                assert(t.contains(x));
                let m = choose|m: int| 0 <= m < t.len() && t[m] == x;
                assert(r[m + 1] == x);
            }
            if r.contains(x) {
                let k = choose|k: int| 0 <= k < r.len() && r[k] == x;
                if k == 0 {
                    assert(v[0] == x);
                } else {
                    assert(t[k - 1] == x);
                    assert(t.contains(x));
                    if x != s {
                        let m = choose|m: int| 0 <= m < w.len() && w[m] == x;
                        assert(v[m + 1] == x);
                    }
                }
            }
        }
    }
}

/// Inserting a list of names keeps the sequence ascending, and it then holds
/// exactly the names it held before and the names inserted.
pub proof fn lemma_insert_names(v: Seq<Seq<char>>, names: Seq<Seq<char>>)
    requires
        sorted_names(v),
    ensures
        sorted_names(insert_names_spec(v, names)),
        forall|x: Seq<char>| #[trigger] insert_names_spec(v, names).contains(x) <==> (v.contains(x) || names.contains(x)),
    decreases names.len(),
{
    if names.len() > 0 {
        let prev = names.drop_last();
        lemma_insert_names(v, prev);
        lemma_insert_name(insert_names_spec(v, prev), names.last());
        assert forall|x: Seq<char>| names.contains(x) <==> (prev.contains(x) || x == names.last()) by {
            if names.contains(x) {
                let k = choose|k: int| 0 <= k < names.len() && names[k] == x;
                if k < names.len() - 1 {
                    assert(prev[k] == x);
                }
            }
            if prev.contains(x) {
                let k = choose|k: int| 0 <= k < prev.len() && prev[k] == x;
                assert(names[k] == x);
            }
        }
    }
}

/// Adds `name` to an ascending vector of distinct names, keeping it so.
pub fn insert_name(v: &mut Vec<String>, name: String)
    requires
        sorted_names(string_views(old(v)@)),
    ensures
        string_views(final(v)@) == insert_name_spec(string_views(old(v)@), name@),
{
    let ghost views = string_views(v@);
    let mut i: usize = 0;
    while i < v.len()
        invariant
            views == string_views(v@),
            views == string_views(old(v)@),
            i <= v@.len(),
            forall|j: int| 0 <= j < i ==> lex_lt(#[trigger] views[j], name@),
        decreases v@.len() - i,
    {
        assert(views[i as int] == v@[i as int]@);
        if v[i] == name {
            proof {
                lemma_insert_name_skip(views, name@, i as int);
                assert(views.skip(i as int)[0] == name@);
                assert(insert_name_spec(views.skip(i as int), name@) == views.skip(i as int));
                assert(views.take(i as int) + views.skip(i as int) =~= views);
                assert(insert_name_spec(views, name@) == views);
                assert(string_views(v@) == views);
            }
            return;
        }
        if str_lt(name.as_str(), v[i].as_str()) {
            proof {
                lemma_insert_name_skip(views, name@, i as int);
                assert(views.skip(i as int)[0] == views[i as int]);
            }
            let ghost nm = name@;
            v.insert(i, name);
            proof {
                assert(views.skip(i as int)[0] != nm);
                assert(insert_name_spec(views.skip(i as int), nm) == seq![nm] + views.skip(i as int));
                assert(string_views(v@) =~= views.take(i as int) + (seq![nm] + views.skip(i as int)));
            }
            return;
        }
        proof {
            lemma_lex_total(name@, views[i as int]);
        }
        i = i + 1;
    }
    proof {
        lemma_insert_name_skip(views, name@, i as int);
        assert(views.skip(i as int) =~= Seq::<Seq<char>>::empty());
        assert(views.take(i as int) =~= views);
    }
    v.push(name);
    proof {
        assert(string_views(v@) =~= views + seq![name@]);
    }
}

} // verus!
