//! Lexicographic order on names and on paths of names, and insertion into
//! sorted, duplicate-free vectors of them.
use vstd::prelude::*;

verus! {

/// Lexicographic order on sequences, from an order on their items: a proper
/// prefix comes first.
pub open spec fn lex_lt<T>(a: Seq<T>, b: Seq<T>, lt: spec_fn(T, T) -> bool) -> bool
    decreases a.len(),
{
    if a.len() == 0 {
        b.len() > 0
    } else if b.len() == 0 {
        false
    } else if a[0] != b[0] {
        lt(a[0], b[0])
    } else {
        lex_lt(a.drop_first(), b.drop_first(), lt)
    }
}

/// Irreflexive, transitive and total on distinct values.
pub open spec fn strict_total<T>(lt: spec_fn(T, T) -> bool) -> bool {
    &&& forall|x: T| !#[trigger] lt(x, x)
    &&& forall|x: T, y: T, z: T| #[trigger] lt(x, y) && #[trigger] lt(y, z) ==> lt(x, z)
    &&& forall|x: T, y: T| x == y || #[trigger] lt(x, y) || lt(y, x)
}

/// The order of characters: by code point.
pub open spec fn char_lt() -> spec_fn(char, char) -> bool {
    |x: char, y: char| (x as int) < (y as int)
}

/// The order of names: lexicographic by code point, as `str` orders them.
pub open spec fn name_lt() -> spec_fn(Seq<char>, Seq<char>) -> bool {
    |x: Seq<char>, y: Seq<char>| lex_lt(x, y, char_lt())
}

/// The order of paths: lexicographic by names.
pub open spec fn path_lt() -> spec_fn(Seq<Seq<char>>, Seq<Seq<char>>) -> bool {
    |x: Seq<Seq<char>>, y: Seq<Seq<char>>| lex_lt(x, y, name_lt())
}

/// Every earlier item is below every later one.
pub open spec fn sorted_by<T>(s: Seq<T>, lt: spec_fn(T, T) -> bool) -> bool {
    forall|i: int, j: int| 0 <= i < j < s.len() ==> #[trigger] lt(s[i], s[j])
}

proof fn lemma_lex_irreflexive<T>(a: Seq<T>, lt: spec_fn(T, T) -> bool)
    ensures
        !lex_lt(a, a, lt),
    decreases a.len(),
{
    if a.len() > 0 {
        lemma_lex_irreflexive(a.drop_first(), lt);
    }
}

proof fn lemma_lex_transitive<T>(a: Seq<T>, b: Seq<T>, c: Seq<T>, lt: spec_fn(T, T) -> bool)
    requires
        strict_total(lt),
        lex_lt(a, b, lt),
        lex_lt(b, c, lt),
    ensures
        lex_lt(a, c, lt),
    decreases a.len(),
{
    if a.len() > 0 && b.len() > 0 && c.len() > 0 {
        if a[0] == b[0] && b[0] == c[0] {
            lemma_lex_transitive(a.drop_first(), b.drop_first(), c.drop_first(), lt);
        } else if a[0] != b[0] && b[0] != c[0] {
            assert(lt(a[0], c[0]));
            assert(a[0] != c[0]) by {
                if a[0] == c[0] {
                    assert(lt(a[0], a[0]));
                }
            }
        }
    }
}

proof fn lemma_lex_total<T>(a: Seq<T>, b: Seq<T>, lt: spec_fn(T, T) -> bool)
    requires
        strict_total(lt),
    ensures
        a == b || lex_lt(a, b, lt) || lex_lt(b, a, lt),
    decreases a.len(),
{
    if a.len() == 0 && b.len() == 0 {
        assert(a =~= b);
    } else if a.len() > 0 && b.len() > 0 {
        if a[0] == b[0] {
            lemma_lex_total(a.drop_first(), b.drop_first(), lt);
            if a.drop_first() == b.drop_first() {
                assert(a.len() == a.drop_first().len() + 1);
                assert(b.len() == b.drop_first().len() + 1);
                assert forall|i: int| 0 <= i < a.len() implies a[i] == b[i] by {
                    if i > 0 {
                        assert(a[i] == a.drop_first()[i - 1]);
                        assert(b[i] == b.drop_first()[i - 1]);
                    }
                }
                assert(a =~= b);
            }
        } else {
            assert(lt(a[0], b[0]) || lt(b[0], a[0]));
        }
    }
}

/// A lexicographic order built on a strict total order is one too.
pub proof fn lemma_lex_strict_total<T>(lt: spec_fn(T, T) -> bool)
    requires
        strict_total(lt),
    ensures
        strict_total(|x: Seq<T>, y: Seq<T>| lex_lt(x, y, lt)),
{
    let l = |x: Seq<T>, y: Seq<T>| lex_lt(x, y, lt);
    assert forall|x: Seq<T>| !#[trigger] l(x, x) by {
        lemma_lex_irreflexive(x, lt);
    }
    assert forall|x: Seq<T>, y: Seq<T>, z: Seq<T>| #[trigger] l(x, y) && #[trigger] l(y, z) implies l(x, z) by {
        lemma_lex_transitive(x, y, z, lt);
    }
    assert forall|x: Seq<T>, y: Seq<T>| x == y || #[trigger] l(x, y) || l(y, x) by {
        lemma_lex_total(x, y, lt);
    }
}

/// Names and paths are strictly and totally ordered.
pub proof fn lemma_orders_strict_total()
    ensures
        strict_total(char_lt()),
        strict_total(name_lt()),
        strict_total(path_lt()),
{
    lemma_lex_strict_total(char_lt());
    assert(name_lt() == (|x: Seq<char>, y: Seq<char>| lex_lt(x, y, char_lt())));
    lemma_lex_strict_total(name_lt());
    assert(path_lt() == (|x: Seq<Seq<char>>, y: Seq<Seq<char>>| lex_lt(x, y, name_lt())));
}

/// Whether one name comes before another.
pub fn name_less(a: &str, b: &str) -> (r: bool)
    ensures
        r == (name_lt())(a@, b@),
{
    let la = a.unicode_len();
    let lb = b.unicode_len();
    let mut i: usize = 0;
    assert(a@.subrange(0, la as int) =~= a@);
    assert(b@.subrange(0, lb as int) =~= b@);
    while i < la && i < lb
        invariant
            la == a@.len(),
            lb == b@.len(),
            i <= la,
            i <= lb,
            lex_lt(a@, b@, char_lt()) == lex_lt(a@.subrange(i as int, la as int), b@.subrange(i as int, lb as int), char_lt()),
        decreases la - i,
    {
        let x = a.get_char(i);
        let y = b.get_char(i);
        if x != y {
            return (x as u32) < (y as u32);
        }
        assert(a@.subrange(i as int, la as int).drop_first() =~= a@.subrange(i as int + 1, la as int));
        assert(b@.subrange(i as int, lb as int).drop_first() =~= b@.subrange(i as int + 1, lb as int));
        i = i + 1;
    }
    i < lb
}

/// Whether one path comes before another.
pub fn path_less(a: &Vec<String>, b: &Vec<String>) -> (r: bool)
    ensures
        r == (path_lt())(a.deep_view(), b.deep_view()),
{
    let ghost da = a.deep_view();
    let ghost db = b.deep_view();
    let la = a.len();
    let lb = b.len();
    let mut i: usize = 0;
    assert(da.subrange(0, la as int) =~= da);
    assert(db.subrange(0, lb as int) =~= db);
    while i < la && i < lb
        invariant
            da == a.deep_view(),
            db == b.deep_view(),
            la == da.len(),
            lb == db.len(),
            i <= la,
            i <= lb,
            lex_lt(da, db, name_lt()) == lex_lt(da.subrange(i as int, la as int), db.subrange(i as int, lb as int), name_lt()),
        decreases la - i,
    {
        assert(da[i as int] == a@[i as int]@);
        assert(db[i as int] == b@[i as int]@);
        if a[i] != b[i] {
            return name_less(a[i].as_str(), b[i].as_str());
        }
        assert(da.subrange(i as int, la as int).drop_first() =~= da.subrange(i as int + 1, la as int));
        assert(db.subrange(i as int, lb as int).drop_first() =~= db.subrange(i as int + 1, lb as int));
        i = i + 1;
    }
    i < lb
}

/// Inserts a name into a sorted, duplicate-free vector of names, where it is
/// not there yet.
pub fn insert_name(v: &mut Vec<String>, x: String)
    requires
        sorted_by(old(v).deep_view(), name_lt()),
    ensures
        sorted_by(final(v).deep_view(), name_lt()),
        forall|y: Seq<char>| final(v).deep_view().contains(y) <==> old(v).deep_view().contains(y) || y == x@,
{
    proof {
        lemma_orders_strict_total();
    }
    let ghost s = v.deep_view();
    let mut p: usize = 0;
    while p < v.len() && name_less(v[p].as_str(), x.as_str())
        invariant
            s == v.deep_view(),
            p <= s.len(),
            forall|i: int| 0 <= i < p ==> #[trigger] (name_lt())(s[i], x@),
        decreases s.len() - p,
    {
        assert(s[p as int] == v@[p as int]@);
        p = p + 1;
    }
    if p < v.len() {
        assert(s[p as int] == v@[p as int]@);
        if v[p] == x {
            return;
        }
    }
    let ghost xv = x@;
    v.insert(p, x);
    let ghost t = v.deep_view();
    assert(t =~= s.insert(p as int, xv)) by {
        assert forall|i: int| 0 <= i < t.len() implies t[i] == s.insert(p as int, xv)[i] by {
            assert(t[i] == v@[i]@);
        }
    }
    assert forall|i: int, j: int| 0 <= i < j < t.len() implies #[trigger] (name_lt())(t[i], t[j]) by {
        if j < p {
        } else if j == p {
        } else if i > p {
            assert(t[i] == s[i - 1] && t[j] == s[j - 1]);
        } else if i == p {
            assert(t[j] == s[j - 1]);
            if j - 1 > p {
                assert((name_lt())(s[p as int], s[j - 1]));
            }
        } else {
            assert(t[j] == s[j - 1]);
            if j - 1 > p {
                assert((name_lt())(s[p as int], s[j - 1]));
            }
        }
    }
    assert forall|y: Seq<char>| t.contains(y) <==> s.contains(y) || y == xv by {
        if s.contains(y) {
            let k = choose|k: int| 0 <= k < s.len() && s[k] == y;
            if k < p {
                assert(t[k] == y);
            } else {
                assert(t[k + 1] == y);
            }
        }
        if t.contains(y) {
            let k = choose|k: int| 0 <= k < t.len() && t[k] == y;
            if k < p {
                assert(s[k] == y);
            } else if k > p {
                assert(s[k - 1] == y);
            }
        }
        if y == xv {
            assert(t[p as int] == y);
        }
    }
}

/// Whether two paths are the same.
pub fn same_path(a: &Vec<String>, b: &Vec<String>) -> (r: bool)
    ensures
        r == (a.deep_view() == b.deep_view()),
{
    if a.len() != b.len() {
        assert(a.deep_view().len() != b.deep_view().len());
        return false;
    }
    for i in 0..a.len()
        invariant
            a@.len() == b@.len(),
            forall|k: int| 0 <= k < i ==> a@[k]@ == b@[k]@,
    {
        if a[i] != b[i] {
            assert(a.deep_view()[i as int] != b.deep_view()[i as int]);
            return false;
        }
    }
    assert(a.deep_view() =~= b.deep_view());
    true
}

/// Two sorted sequences with the same items are the same sequence.
pub proof fn lemma_sorted_unique<T>(a: Seq<T>, b: Seq<T>, lt: spec_fn(T, T) -> bool)
    requires
        strict_total(lt),
        sorted_by(a, lt),
        sorted_by(b, lt),
        forall|x: T| a.contains(x) <==> b.contains(x),
    ensures
        a == b,
    decreases a.len(),
{
    if a.len() == 0 {
        if b.len() > 0 {
            assert(b.contains(b[0]));
        }
        assert(a =~= b);
    } else {
        assert(a.contains(a[0]));
        assert(b.len() > 0);
        assert(b.contains(b[0]));
        let k = choose|k: int| 0 <= k < b.len() && b[k] == a[0];
        let m = choose|m: int| 0 <= m < a.len() && a[m] == b[0];
        if a[0] != b[0] {
            assert(k > 0 && m > 0);
            assert(lt(b[0], b[k]));
            assert(lt(a[0], a[m]));
            assert(lt(a[0], a[0]));
        }
        let a1 = a.drop_first();
        let b1 = b.drop_first();
        assert forall|x: T| a1.contains(x) <==> b1.contains(x) by {
            if a1.contains(x) {
                let i = choose|i: int| 0 <= i < a1.len() && a1[i] == x;
                assert(a[i + 1] == x);
                assert(lt(a[0], a[i + 1]));
                assert(b.contains(x));
                let j = choose|j: int| 0 <= j < b.len() && b[j] == x;
                if j == 0 {
                    assert(lt(x, x));
                }
                assert(b1[j - 1] == x);
            }
            if b1.contains(x) {
                let i = choose|i: int| 0 <= i < b1.len() && b1[i] == x;
                assert(b[i + 1] == x);
                assert(lt(b[0], b[i + 1]));
                assert(a.contains(x));
                let j = choose|j: int| 0 <= j < a.len() && a[j] == x;
                if j == 0 {
                    assert(lt(x, x));
                }
                assert(a1[j - 1] == x);
            }
        }
        lemma_sorted_unique(a1, b1, lt);
        assert forall|i: int| 0 <= i < a.len() implies a[i] == b[i] by {
            if i > 0 {
                assert(a[i] == a1[i - 1]);
                assert(b[i] == b1[i - 1]);
            }
        }
        assert(a =~= b);
    }
}

/// Inserts a path into a sorted, duplicate-free vector of paths, where it is
/// not there yet.
pub fn insert_path(v: &mut Vec<Vec<String>>, x: Vec<String>)
    requires
        sorted_by(old(v).deep_view(), path_lt()),
    ensures
        sorted_by(final(v).deep_view(), path_lt()),
        forall|y: Seq<Seq<char>>| final(v).deep_view().contains(y) <==> old(v).deep_view().contains(y) || y == x.deep_view(),
{
    proof {
        lemma_orders_strict_total();
    }
    let ghost s = v.deep_view();
    let mut p: usize = 0;
    while p < v.len() && path_less(&v[p], &x)
        invariant
            s == v.deep_view(),
            p <= s.len(),
            forall|i: int| 0 <= i < p ==> #[trigger] (path_lt())(s[i], x.deep_view()),
        decreases s.len() - p,
    {
        assert(s[p as int] == v@[p as int].deep_view());
        p = p + 1;
    }
    if p < v.len() {
        assert(s[p as int] == v@[p as int].deep_view());
        if same_path(&v[p], &x) {
            return;
        }
    }
    let ghost xv = x.deep_view();
    v.insert(p, x);
    let ghost t = v.deep_view();
    assert(t =~= s.insert(p as int, xv)) by {
        assert forall|i: int| 0 <= i < t.len() implies t[i] == s.insert(p as int, xv)[i] by {
            assert(t[i] == v@[i].deep_view());
        }
    }
    assert forall|i: int, j: int| 0 <= i < j < t.len() implies #[trigger] (path_lt())(t[i], t[j]) by {
        if j < p {
        } else if j == p {
        } else if i > p {
            assert(t[i] == s[i - 1] && t[j] == s[j - 1]);
        } else if i == p {
            assert(t[j] == s[j - 1]);
            if j - 1 > p {
                assert((path_lt())(s[p as int], s[j - 1]));
            }
        } else {
            assert(t[j] == s[j - 1]);
            if j - 1 > p {
                assert((path_lt())(s[p as int], s[j - 1]));
            }
        }
    }
    assert forall|y: Seq<Seq<char>>| t.contains(y) <==> s.contains(y) || y == xv by {
        if s.contains(y) {
            let k = choose|k: int| 0 <= k < s.len() && s[k] == y;
            if k < p {
                assert(t[k] == y);
            } else {
                assert(t[k + 1] == y);
            }
        }
        if t.contains(y) {
            let k = choose|k: int| 0 <= k < t.len() && t[k] == y;
            if k < p {
                assert(s[k] == y);
            } else if k > p {
                assert(s[k - 1] == y);
            }
        }
        if y == xv {
            assert(t[p as int] == y);
        }
    }
}

} // verus!
