//! Lexicographic order on strings (by character code points), and the
//! sorted, duplicate-free aggregation the year-level crawl returns.
use vstd::prelude::*;

verus! {

/// Strict lexicographic order on character sequences: `a` comes before `b`
/// when, at the first differing position, `a`'s character is smaller, or
/// when `a` is a proper prefix of `b`.
pub open spec fn lex_lt(a: Seq<char>, b: Seq<char>) -> bool
    decreases a.len(),
{
    if b.len() == 0 {
        false
    } else if a.len() == 0 {
        true
    } else if a[0] != b[0] {
        a[0] < b[0]
    } else {
        lex_lt(a.drop_first(), b.drop_first())
    }
}

/// `lex_lt` is irreflexive.
pub proof fn lemma_lex_lt_irrefl(a: Seq<char>)
    ensures
        !lex_lt(a, a),
    decreases a.len(),
{
    if a.len() > 0 {
        lemma_lex_lt_irrefl(a.drop_first());
    }
}

/// `lex_lt` is connex: two sequences it does not order either way are equal.
pub proof fn lemma_lex_lt_connex(a: Seq<char>, b: Seq<char>)
    ensures
        lex_lt(a, b) || lex_lt(b, a) || a == b,
    decreases a.len(),
{
    if a.len() == 0 {
        if b.len() == 0 {
            assert(a =~= b);
        }
    } else if b.len() > 0 && a[0] == b[0] {
        lemma_lex_lt_connex(a.drop_first(), b.drop_first());
        if !lex_lt(a, b) && !lex_lt(b, a) {
            assert(a.drop_first() == b.drop_first());
            assert(a.len() == b.len());
            assert forall|i: int| 0 <= i < a.len() implies a[i] == b[i] by {
                if i >= 1 {
                    assert(a[i] == a.drop_first()[i - 1]);
                    assert(b[i] == b.drop_first()[i - 1]);
                }
            }
            assert(a =~= b);
        }
    }
}

/// `lex_lt` is asymmetric.
pub proof fn lemma_lex_lt_asym(a: Seq<char>, b: Seq<char>)
    requires
        lex_lt(a, b),
    ensures
        !lex_lt(b, a),
    decreases a.len(),
{
    if a.len() > 0 && b.len() > 0 && a[0] == b[0] {
        lemma_lex_lt_asym(a.drop_first(), b.drop_first());
    }
}

/// `lex_lt` is transitive.
pub proof fn lemma_lex_lt_trans(a: Seq<char>, b: Seq<char>, c: Seq<char>)
    requires
        lex_lt(a, b),
        lex_lt(b, c),
    ensures
        lex_lt(a, c),
    decreases a.len(),
{
    if a.len() > 0 && a[0] == b[0] && b[0] == c[0] {
        lemma_lex_lt_trans(a.drop_first(), b.drop_first(), c.drop_first());
    }
}

proof fn lemma_lex_lt_step(a: Seq<char>, b: Seq<char>, i: int)
    requires
        0 <= i < a.len(),
        i < b.len(),
        a[i] == b[i],
    ensures
        lex_lt(a.skip(i), b.skip(i)) == lex_lt(a.skip(i + 1), b.skip(i + 1)),
{
    assert(a.skip(i).drop_first() =~= a.skip(i + 1));
    assert(b.skip(i).drop_first() =~= b.skip(i + 1));
    assert(a.skip(i)[0] == a[i]);
    assert(b.skip(i)[0] == b[i]);
}

/// Compares two strings in the order of `lex_lt`.
pub fn str_lt(a: &str, b: &str) -> (r: bool)
    ensures
        r == lex_lt(a@, b@),
{
    let alen = a.unicode_len();
    let blen = b.unicode_len();
    let mut i: usize = 0;
    proof {
        assert(a@.skip(0) =~= a@);
        assert(b@.skip(0) =~= b@);
    }
    while i < alen && i < blen
        invariant
            i <= alen,
            i <= blen,
            alen == a@.len(),
            blen == b@.len(),
            lex_lt(a@, b@) == lex_lt(a@.skip(i as int), b@.skip(i as int)),
        decreases alen - i,
    {
        let ca = a.get_char(i);
        let cb = b.get_char(i);
        if ca != cb {
            proof {
                assert(a@.skip(i as int)[0] == a@[i as int]);
                assert(b@.skip(i as int)[0] == b@[i as int]);
            }
            return ca < cb;
        }
        proof {
            lemma_lex_lt_step(a@, b@, i as int);
        }
        i = i + 1;
    }
    proof {
        assert(a@.skip(i as int).len() == a@.len() - i);
        assert(b@.skip(i as int).len() == b@.len() - i);
    }
    i < blen
}

/// Whether `s` is strictly ascending in `lex_lt`; such a sequence holds
/// no value twice.
pub open spec fn strictly_sorted(s: Seq<Seq<char>>) -> bool {
    forall|i: int, j: int| 0 <= i < j < s.len() ==> lex_lt(s[i], s[j])
}

proof fn lemma_insert_keeps_sorted(dv: Seq<Seq<char>>, s: Seq<char>, i: int)
    requires
        strictly_sorted(dv),
        0 <= i <= dv.len(),
        forall|j: int| 0 <= j < i ==> lex_lt(#[trigger] dv[j], s),
        forall|j: int| i <= j < dv.len() ==> lex_lt(s, #[trigger] dv[j]),
    ensures
        strictly_sorted(dv.insert(i, s)),
        dv.insert(i, s).to_set() == dv.to_set().insert(s),
{
    let n = dv.insert(i, s);
    dv.insert_ensures(i, s);
    assert forall|p: int, q: int| 0 <= p < q < n.len() implies lex_lt(n[p], n[q]) by {
        if q < i {
            assert(n[p] == dv[p] && n[q] == dv[q]);
        } else if p > i {
            assert(n[p] == dv[p - 1] && n[q] == dv[q - 1]);
        } else if p < i && q == i {
            assert(n[p] == dv[p] && n[q] == s);
        } else if p == i {
            assert(n[p] == s && n[q] == dv[q - 1]);
        } else {
            // p < i < q
            assert(n[p] == dv[p] && n[q] == dv[q - 1]);
            lemma_lex_lt_trans(dv[p], s, dv[q - 1]);
        }
    }
    assert forall|x: Seq<char>| n.to_set().contains(x) implies dv.to_set().contains(x) || x
        == s by {
        let k = choose|k: int| 0 <= k < n.len() && n[k] == x;
        if k < i {
            assert(dv[k] == x);
        } else if k > i {
            assert(dv[k - 1] == x);
        }
    }
    assert forall|x: Seq<char>| dv.to_set().contains(x) implies n.to_set().contains(x) by {
        let k = choose|k: int| 0 <= k < dv.len() && dv[k] == x;
        if k < i {
            assert(n[k] == x);
        } else {
            assert(n[k + 1] == x);
        }
    }
    assert(n[i] == s);
    assert(n.to_set() =~= dv.to_set().insert(s));
}

/// Inserts `s` into the strictly sorted vector `v` at its ordered
/// position; a value already present is not inserted a second time.
pub fn insert_unique_sorted(v: &mut Vec<String>, s: String)
    requires
        strictly_sorted(old(v).deep_view()),
    ensures
        strictly_sorted(final(v).deep_view()),
        final(v).deep_view().to_set() == old(v).deep_view().to_set().insert(s@),
{
    let ghost dv = v.deep_view();
    let mut i: usize = 0;
    while i < v.len() && str_lt(v[i].as_str(), s.as_str())
        invariant
            i <= v.len(),
            *v == *old(v),
            dv == v.deep_view(),
            forall|j: int| 0 <= j < i ==> lex_lt(#[trigger] dv[j], s@),
        decreases v.len() - i,
    {
        i = i + 1;
    }
    if i < v.len() && v[i] == s {
        proof {
            assert(dv[i as int] == s@);
            assert(dv.contains(s@));
            assert(dv.to_set() =~= dv.to_set().insert(s@));
        }
        return ;
    }
    proof {
        if i < v.len() {
            lemma_lex_lt_connex(dv[i as int], s@);
        }
        assert forall|j: int| i <= j < dv.len() implies lex_lt(s@, #[trigger] dv[j]) by {
            if j > i {
                lemma_lex_lt_trans(s@, dv[i as int], dv[j]);
            }
        }
        lemma_insert_keeps_sorted(dv, s@, i as int);
    }
    let ghost svw = s@;
    v.insert(i, s);
    proof {
        assert(v.deep_view() =~= dv.insert(i as int, svw));
    }
}

/// Sorts the given strings and drops duplicate values: the result is
/// strictly ascending in `lex_lt` and holds exactly the set of input values.
pub fn sort_dedup(items: Vec<String>) -> (r: Vec<String>)
    ensures
        strictly_sorted(r.deep_view()),
        r.deep_view().to_set() == items.deep_view().to_set(),
{
    let ghost iv = items.deep_view();
    let mut out: Vec<String> = Vec::new();
    let mut k: usize = 0;
    proof {
        assert(out.deep_view() =~= Seq::<Seq<char>>::empty());
        assert(out.deep_view().to_set() =~= iv.take(0).to_set());
    }
    while k < items.len()
        invariant
            k <= items.len(),
            iv == items.deep_view(),
            iv.len() == items.len(),
            strictly_sorted(out.deep_view()),
            out.deep_view().to_set() == iv.take(k as int).to_set(),
        decreases items.len() - k,
    {
        let s = items[k].clone();
        proof {
            assert(s@ == iv[k as int]);
        }
        insert_unique_sorted(&mut out, s);
        proof {
            assert(iv.take(k + 1) =~= iv.take(k as int).push(iv[k as int]));
            iv.take(k as int).lemma_push_to_set_commute(iv[k as int]);
        }
        k = k + 1;
    }
    proof {
        assert(iv.take(k as int) =~= iv);
    }
    out
}

/// A strictly sorted sequence holds no value twice.
pub proof fn lemma_strictly_sorted_no_duplicates(v: Seq<Seq<char>>)
    requires
        strictly_sorted(v),
    ensures
        v.no_duplicates(),
{
    assert forall|i: int, j: int| 0 <= i < j < v.len() implies v[i] != v[j] by {
        if v[i] == v[j] {
            lemma_lex_lt_irrefl(v[i]);
        }
    }
}

/// Sorting and deduplicating is deterministic: two strictly sorted
/// sequences over the same set of values are the same sequence, whatever
/// order and multiplicity the values were collected in.
pub proof fn lemma_sorted_set_unique(a: Seq<Seq<char>>, b: Seq<Seq<char>>)
    requires
        strictly_sorted(a),
        strictly_sorted(b),
        a.to_set() == b.to_set(),
    ensures
        a == b,
    decreases a.len(),
{
    if a.len() == 0 {
        if b.len() > 0 {
            assert(b.to_set().contains(b[0]));
            assert(a.contains(b[0]));
        }
        assert(a =~= b);
    } else {
        assert(a.to_set().contains(a[0]));
        assert(b.contains(a[0]));
        let k = choose|k: int| 0 <= k < b.len() && b[k] == a[0];
        assert(b.to_set().contains(b[0]));
        assert(a.contains(b[0]));
        let m = choose|m: int| 0 <= m < a.len() && a[m] == b[0];
        if k > 0 && m > 0 {
            // then b[0] < a[0] and a[0] < b[0]: impossible
            lemma_lex_lt_asym(b[0], b[k]);
        }
        assert(a[0] == b[0]);
        let at = a.drop_first();
        let bt = b.drop_first();
        assert forall|i: int, j: int| 0 <= i < j < at.len() implies lex_lt(at[i], at[j]) by {
            assert(at[i] == a[i + 1] && at[j] == a[j + 1]);
        }
        assert forall|i: int, j: int| 0 <= i < j < bt.len() implies lex_lt(bt[i], bt[j]) by {
            assert(bt[i] == b[i + 1] && bt[j] == b[j + 1]);
        }
        lemma_tail_set(a);
        lemma_tail_set(b);
        lemma_sorted_set_unique(at, bt);
        assert forall|i: int| 0 <= i < a.len() implies a[i] == b[i] by {
            if i >= 1 {
                assert(a[i] == at[i - 1] && b[i] == bt[i - 1]);
            }
        }
        assert(a =~= b);
    }
}

/// For a strictly sorted, nonempty sequence, the values past the head are
/// exactly the set of all values with the head taken out.
proof fn lemma_tail_set(a: Seq<Seq<char>>)
    requires
        strictly_sorted(a),
        a.len() > 0,
    ensures
        a.drop_first().to_set() == a.to_set().remove(a[0]),
{
    let at = a.drop_first();
    assert forall|x: Seq<char>| at.to_set().contains(x) implies a.to_set().remove(a[0]).contains(
        x,
    ) by {
        let k = choose|k: int| 0 <= k < at.len() && at[k] == x;
        assert(a[k + 1] == x);
        assert(lex_lt(a[0], a[k + 1]));
        if x == a[0] {
            lemma_lex_lt_irrefl(x);
        }
    }
    assert forall|x: Seq<char>| a.to_set().remove(a[0]).contains(x) implies at.to_set().contains(
        x,
    ) by {
        let k = choose|k: int| 0 <= k < a.len() && a[k] == x;
        assert(k > 0);
        assert(at[k - 1] == x);
    }
    assert(at.to_set() =~= a.to_set().remove(a[0]));
}

/// Deduplication only shrinks: a strictly sorted sequence over the set of
/// values of `c` is never longer than `c`, and is strictly shorter as soon
/// as `c` holds some value twice.
pub proof fn lemma_dedup_shrinks(c: Seq<Seq<char>>, v: Seq<Seq<char>>)
    requires
        strictly_sorted(v),
        v.to_set() == c.to_set(),
    ensures
        v.no_duplicates(),
        v.len() <= c.len(),
        (exists|i: int, j: int| 0 <= i < j < c.len() && c[i] == c[j]) ==> v.len() < c.len(),
{
    lemma_strictly_sorted_no_duplicates(v);
    v.unique_seq_to_set();
    c.lemma_cardinality_of_set();
    if exists|i: int, j: int| 0 <= i < j < c.len() && c[i] == c[j] {
        let (i, j) = choose|i: int, j: int| 0 <= i < j < c.len() && c[i] == c[j];
        let cr = c.remove(j);
        c.remove_ensures(j);
        assert forall|x: Seq<char>| c.to_set().contains(x) implies cr.to_set().contains(x) by {
            let k = choose|k: int| 0 <= k < c.len() && c[k] == x;
            if k < j {
                assert(cr[k] == x);
            } else if k > j {
                assert(cr[k - 1] == x);
            } else {
                assert(cr[i] == x);
            }
        }
        assert forall|x: Seq<char>| cr.to_set().contains(x) implies c.to_set().contains(x) by {
            let k = choose|k: int| 0 <= k < cr.len() && cr[k] == x;
            if k < j {
                assert(c[k] == x);
            } else {
                assert(c[k + 1] == x);
            }
        }
        assert(c.to_set() =~= cr.to_set());
        cr.lemma_cardinality_of_set();
    }
}

} // verus!
