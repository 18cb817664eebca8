use vstd::prelude::*;

verus! {

/// Whether two strings hold the same characters.
pub fn same_text(a: &str, b: &str) -> (r: bool)
    ensures
        r == (a@ == b@),
{
    let n = a.unicode_len();
    if n != b.unicode_len() {
        return false;
    }
    let mut i: usize = 0;
    while i < n
        invariant
            i <= n == a@.len() == b@.len(),
            forall|k: int| 0 <= k < i ==> a@[k] == b@[k],
        decreases n - i,
    {
        if a.get_char(i) != b.get_char(i) {
            return false;
        }
        i = i + 1;
    }
    assert(a@ =~= b@);
    true
}

/// Lexicographic order on strings, character by character by code point; a
/// proper prefix comes first.
pub open spec fn text_lt(a: Seq<char>, b: Seq<char>) -> bool
    decreases a.len(),
{
    if a.len() == 0 {
        b.len() > 0
    } else if b.len() == 0 {
        false
    } else if a[0] != b[0] {
        (a[0] as int) < (b[0] as int)
    } else {
        text_lt(a.drop_first(), b.drop_first())
    }
}

/// Every element of `v` comes strictly before every later one.
pub open spec fn strictly_sorted(v: Seq<Seq<char>>) -> bool {
    forall|i: int, j: int| 0 <= i < j < v.len() ==> text_lt(#[trigger] v[i], #[trigger] v[j])
}

pub proof fn lemma_text_lt_irreflexive(a: Seq<char>)
    ensures
        !text_lt(a, a),
    decreases a.len(),
{
    if a.len() > 0 {
        lemma_text_lt_irreflexive(a.drop_first());
    }
}

pub proof fn lemma_text_lt_transitive(a: Seq<char>, b: Seq<char>, c: Seq<char>)
    requires
        text_lt(a, b),
        text_lt(b, c),
    ensures
        text_lt(a, c),
    decreases a.len(),
{
    if a.len() > 0 && b.len() > 0 && c.len() > 0 && a[0] == b[0] && b[0] == c[0] {
        lemma_text_lt_transitive(a.drop_first(), b.drop_first(), c.drop_first());
    }
}

pub proof fn lemma_text_lt_total(a: Seq<char>, b: Seq<char>)
    ensures
        a == b || text_lt(a, b) || text_lt(b, a),
    decreases a.len(),
{
    if a.len() > 0 && b.len() > 0 {
        if a[0] == b[0] {
            lemma_text_lt_total(a.drop_first(), b.drop_first());
            if a.drop_first() == b.drop_first() {
                assert(a =~= seq![a[0]] + a.drop_first());
                assert(b =~= seq![b[0]] + b.drop_first());
            }
        } else {
            assert((a[0] as int) != (b[0] as int));
        }
    } else if a.len() == 0 && b.len() == 0 {
        assert(a =~= b);
    }
}

/// Comparing two strings that agree on their first `i` characters comes down
/// to comparing what follows.
proof fn lemma_text_lt_skip(a: Seq<char>, b: Seq<char>, i: int)
    requires
        0 <= i <= a.len(),
        i <= b.len(),
        forall|k: int| 0 <= k < i ==> a[k] == b[k],
    ensures
        text_lt(a, b) == text_lt(a.subrange(i, a.len() as int), b.subrange(i, b.len() as int)),
    decreases i,
{
    if i > 0 {
        lemma_text_lt_skip(a.drop_first(), b.drop_first(), i - 1);
        assert(a.drop_first().subrange(i - 1, a.len() - 1) =~= a.subrange(i, a.len() as int));
        assert(b.drop_first().subrange(i - 1, b.len() - 1) =~= b.subrange(i, b.len() as int));
    } else {
        assert(a.subrange(0, a.len() as int) =~= a);
        assert(b.subrange(0, b.len() as int) =~= b);
    }
}

/// Whether `a` comes strictly before `b`.
pub fn comes_before(a: &str, b: &str) -> (r: bool)
    ensures
        r == text_lt(a@, b@),
{
    let n = a.unicode_len();
    let m = b.unicode_len();
    let mut i: usize = 0;
    while i < n && i < m
        invariant
            i <= n == a@.len(),
            i <= m == b@.len(),
            forall|k: int| 0 <= k < i ==> a@[k] == b@[k],
        decreases n - i,
    {
        let x = a.get_char(i);
        let y = b.get_char(i);
        if x != y {
            proof {
                lemma_text_lt_skip(a@, b@, i as int);
            }
            return (x as u32) < (y as u32);
        }
        i = i + 1;
    }
    proof {
        lemma_text_lt_skip(a@, b@, i as int);
    }
    i < m
}

/// Where `s` stands in the strictly sorted `v`: at index `r.0` if `r.1`,
/// else `r.0` is where it would be inserted.
pub fn find_sorted(v: &Vec<String>, s: &str) -> (r: (usize, bool))
    requires
        strictly_sorted(v.deep_view()),
    ensures
        r.0 <= v.len(),
        r.1 ==> r.0 < v.len() && v.deep_view()[r.0 as int] == s@,
        !r.1 ==> forall|k: int| 0 <= k < r.0 ==> text_lt(#[trigger] v.deep_view()[k], s@),
        !r.1 ==> forall|k: int| r.0 <= k < v.len() ==> text_lt(s@, #[trigger] v.deep_view()[k]),
        r.1 <==> v.deep_view().contains(s@),
{
    let ghost dv = v.deep_view();
    let mut i: usize = 0;
    while i < v.len() && comes_before(v[i].as_str(), s)
        invariant
            i <= v.len(),
            dv == v.deep_view(),
            strictly_sorted(dv),
            forall|k: int| 0 <= k < i ==> text_lt(#[trigger] dv[k], s@),
        decreases v.len() - i,
    {
        i = i + 1;
    }
    if i < v.len() && same_text(v[i].as_str(), s) {
        assert(dv[i as int] == s@);
        return (i, true);
    }
    proof {
        if i < v.len() {
            lemma_text_lt_total(dv[i as int], s@);
            assert forall|k: int| i <= k < v.len() implies text_lt(s@, #[trigger] dv[k]) by {
                if k > i {
                    lemma_text_lt_transitive(s@, dv[i as int], dv[k]);
                }
            }
        }
        assert forall|k: int| 0 <= k < dv.len() implies dv[k] != s@ by {
            lemma_text_lt_irreflexive(s@);
        }
    }
    (i, false)
}

/// Adds `s` to the strictly sorted `v`, where it is not there yet.
pub fn insert_sorted(v: &mut Vec<String>, s: &str)
    requires
        strictly_sorted(old(v).deep_view()),
    ensures
        strictly_sorted(final(v).deep_view()),
        forall|x: Seq<char>| #[trigger]
            final(v).deep_view().contains(x) <==> (old(v).deep_view().contains(x) || x == s@),
{
    let (i, found) = find_sorted(v, s);
    if found {
        return;
    }
    let ghost before = v.deep_view();
    v.insert(i, s.to_owned());
    proof {
        let after = v.deep_view();
        assert(after =~= before.insert(i as int, s@));
        assert forall|p: int, q: int| 0 <= p < q < after.len() implies text_lt(
            #[trigger] after[p],
            #[trigger] after[q],
        ) by {
            if q < i {
                assert(after[p] == before[p] && after[q] == before[q]);
            } else if q == i {
                assert(after[p] == before[p]);
            } else if p < i {
                assert(after[p] == before[p] && after[q] == before[q - 1]);
                lemma_text_lt_transitive(before[p], s@, before[q - 1]);
            } else if p == i {
                assert(after[q] == before[q - 1]);
            } else {
                assert(after[p] == before[p - 1] && after[q] == before[q - 1]);
            }
        }
        assert forall|x: Seq<char>| #[trigger]
            after.contains(x) <==> (before.contains(x) || x == s@) by {
            if before.contains(x) {
                let k = choose|k: int| 0 <= k < before.len() && before[k] == x;
                if k < i {
                    assert(after[k] == x);
                } else {
                    assert(after[k + 1] == x);
                }
            }
            if x == s@ {
                assert(after[i as int] == x);
            }
            if after.contains(x) {
                let k = choose|k: int| 0 <= k < after.len() && after[k] == x;
                if k < i {
                    assert(before[k] == x);
                } else if k > i {
                    assert(before[k - 1] == x);
                }
            }
        }
    }
}

} // verus!
