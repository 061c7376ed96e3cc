//! The order of texts, and sorting without repetition.
use vstd::prelude::*;
use vstd::string::*;

use crate::text;
use crate::text::chars_of;

verus! {

/// Whether `a` comes before `b`: by the first character in which they
/// differ, and a proper start of a text before the text.
pub open spec fn text_lt(a: Seq<char>, b: Seq<char>) -> bool
    decreases a.len(),
{
    if b.len() == 0 {
        false
    } else if a.len() == 0 {
        true
    } else if a[0] != b[0] {
        a[0] < b[0]
    } else {
        text_lt(a.drop_first(), b.drop_first())
    }
}

/// No text comes before itself, and of two different texts exactly one comes
/// before the other.
pub proof fn lemma_text_lt_total(a: Seq<char>, b: Seq<char>)
    ensures
        !text_lt(a, a),
        !(text_lt(a, b) && text_lt(b, a)),
        a != b ==> text_lt(a, b) || text_lt(b, a),
    decreases a.len(),
{
    if a.len() > 0 {
        lemma_text_lt_total(a.drop_first(), b.drop_first());
        if b.len() > 0 && a[0] == b[0] && a.drop_first() == b.drop_first() {
            assert(a =~= seq![a[0]] + a.drop_first());
            assert(b =~= seq![b[0]] + b.drop_first());
        }
    } else if b.len() == 0 {
        assert(a =~= b);
    }
}

/// The order is transitive.
pub proof fn lemma_text_lt_transitive(a: Seq<char>, b: Seq<char>, c: Seq<char>)
    requires
        text_lt(a, b),
        text_lt(b, c),
    ensures
        text_lt(a, c),
    decreases a.len(),
{
    if a.len() > 0 && b.len() > 0 && c.len() > 0 && a[0] == b[0] && b[0] == c[0] {
        lemma_text_lt_transitive(a.drop_first(), b.drop_first(), c.drop_first());
    }
}

/// Whether `a` comes before `b`.
pub fn text_before_text(a: &str, b: &str) -> (r: bool)
    ensures
        r == text_lt(a@, b@),
{
    let x = chars_of(a);
    let y = chars_of(b);
    let mut i: usize = 0;
    assert(a@.skip(0) =~= a@);
    assert(b@.skip(0) =~= b@);
    while i < x.len() && i < y.len() && x[i] == y[i]
        invariant
            i <= x.len(),
            i <= y.len(),
            x@ == a@,
            y@ == b@,
            text_lt(a@, b@) == text_lt(a@.skip(i as int), b@.skip(i as int)),
        decreases x.len() - i,
    {
        assert(a@.skip(i as int).drop_first() =~= a@.skip(i + 1));
        assert(b@.skip(i as int).drop_first() =~= b@.skip(i + 1));
        i = i + 1;
    }
    if i == y.len() {
        false
    } else if i == x.len() {
        true
    } else {
        x[i] < y[i]
    }
}

/// Whether each member comes before all that follow it.
pub open spec fn strictly_ordered(s: Seq<Seq<char>>) -> bool {
    forall|i: int, j: int| 0 <= i < j < s.len() ==> text_lt(#[trigger] s[i], #[trigger] s[j])
}

/// Whether `s` holds what `of` holds, each member once and in order.
pub open spec fn is_ordered_set_of(s: Seq<Seq<char>>, of: Seq<Seq<char>>) -> bool {
    &&& strictly_ordered(s)
    &&& forall|t: Seq<char>| #[trigger] s.contains(t) <==> of.contains(t)
}

/// What `of` holds, each member once and in order.
pub open spec fn ordered_set(of: Seq<Seq<char>>) -> Seq<Seq<char>> {
    choose|s: Seq<Seq<char>>| is_ordered_set_of(s, of)
}

proof fn lemma_same_members(a: Seq<Seq<char>>, b: Seq<Seq<char>>)
    requires
        strictly_ordered(a),
        strictly_ordered(b),
        forall|t: Seq<char>| #[trigger] a.contains(t) <==> b.contains(t),
    ensures
        a == b,
    decreases a.len(),
{
    if a.len() == 0 {
        if b.len() > 0 {
            assert(b.contains(b[0]));
            assert(a.contains(b[0]));
        }
        assert(a =~= b);
    } else {
        assert(a.contains(a[0]));
        assert(b.contains(a[0]));
        assert(b.contains(b[0]));
        assert(a.contains(b[0]));
        let i = choose|i: int| 0 <= i < b.len() && b[i] == a[0];
        let j = choose|j: int| 0 <= j < a.len() && a[j] == b[0];
        if i > 0 && j > 0 {
            lemma_text_lt_total(a[0], b[0]);
        }
        assert(a[0] == b[0]);
        let x = a.drop_first();
        let y = b.drop_first();
        assert forall|p: int, q: int| 0 <= p < q < x.len() implies text_lt(
            #[trigger] x[p],
            #[trigger] x[q],
        ) by {
            assert(a[p + 1] == x[p] && a[q + 1] == x[q]);
        }
        assert forall|p: int, q: int| 0 <= p < q < y.len() implies text_lt(
            #[trigger] y[p],
            #[trigger] y[q],
        ) by {
            assert(b[p + 1] == y[p] && b[q + 1] == y[q]);
        }
        assert forall|t: Seq<char>| #[trigger] x.contains(t) <==> y.contains(t) by {
            if x.contains(t) {
                let k = choose|k: int| 0 <= k < x.len() && x[k] == t;
                assert(a[k + 1] == t);
                assert(a.contains(t));
                let m = choose|m: int| 0 <= m < b.len() && b[m] == t;
                assert(text_lt(a[0], a[k + 1]));
                lemma_text_lt_total(a[0], t);
                assert(m > 0);
                assert(y[m - 1] == t);
            }
            if y.contains(t) {
                let k = choose|k: int| 0 <= k < y.len() && y[k] == t;
                assert(b[k + 1] == t);
                assert(b.contains(t));
                assert(a.contains(t));
                let m = choose|m: int| 0 <= m < a.len() && a[m] == t;
                assert(text_lt(b[0], b[k + 1]));
                lemma_text_lt_total(b[0], t);
                assert(m > 0);
                assert(x[m - 1] == t);
            }
        }
        lemma_same_members(x, y);
        assert(a =~= seq![a[0]] + x);
        assert(b =~= seq![b[0]] + y);
    }
}

/// There is only one such arrangement.
pub proof fn lemma_ordered_set_unique(s: Seq<Seq<char>>, of: Seq<Seq<char>>)
    requires
        is_ordered_set_of(s, of),
    ensures
        s == ordered_set(of),
{
    let t = ordered_set(of);
    assert(is_ordered_set_of(t, of));
    assert forall|x: Seq<char>| #[trigger] s.contains(x) <==> t.contains(x) by {
        assert(s.contains(x) <==> of.contains(x));
        assert(t.contains(x) <==> of.contains(x));
    }
    lemma_same_members(s, t);
}

proof fn lemma_insert_ordered(s: Seq<Seq<char>>, k: int, t: Seq<char>)
    requires
        strictly_ordered(s),
        0 <= k <= s.len(),
        forall|i: int| 0 <= i < k ==> text_lt(#[trigger] s[i], t),
        k < s.len() ==> text_lt(t, s[k]),
    ensures
        strictly_ordered(s.insert(k, t)),
        forall|x: Seq<char>| #[trigger] s.insert(k, t).contains(x) <==> s.contains(x) || x == t,
{
    let r = s.insert(k, t);
    assert forall|i: int, j: int| 0 <= i < j < r.len() implies text_lt(
        #[trigger] r[i],
        #[trigger] r[j],
    ) by {
        let a = if i < k {
            i
        } else {
            i - 1
        };
        let b = if j < k {
            j
        } else {
            j - 1
        };
        if i == k {
            if b > k {
                lemma_text_lt_transitive(t, s[k], s[b]);
            }
        } else if j == k {
        } else {
            assert(r[i] == s[a] && r[j] == s[b]);
        }
    }
    assert forall|x: Seq<char>| #[trigger] r.contains(x) <==> s.contains(x) || x == t by {
        if s.contains(x) {
            let i = choose|i: int| 0 <= i < s.len() && s[i] == x;
            if i < k {
                assert(r[i] == x);
            } else {
                assert(r[i + 1] == x);
            }
        }
        if x == t {
            assert(r[k] == x);
        }
        if r.contains(x) {
            let i = choose|i: int| 0 <= i < r.len() && r[i] == x;
            if i < k {
                assert(s[i] == x);
            } else if i > k {
                assert(s[i - 1] == x);
            }
        }
    }
}

proof fn lemma_place(s: Seq<Seq<char>>, t: Seq<char>) -> (k: int)
    requires
        strictly_ordered(s),
    ensures
        0 <= k <= s.len(),
        forall|i: int| 0 <= i < k ==> text_lt(#[trigger] s[i], t),
        k < s.len() ==> s[k] == t || text_lt(t, s[k]),
    decreases s.len(),
{
    if s.len() == 0 || !text_lt(s.last(), t) {
        if s.len() == 0 {
            0
        } else {
            let k = lemma_place(s.drop_last(), t);
            assert forall|i: int| 0 <= i < k implies text_lt(#[trigger] s[i], t) by {
                assert(s.drop_last()[i] == s[i]);
            }
            lemma_text_lt_total(s[k], t);
            k
        }
    } else {
        assert forall|i: int| 0 <= i < s.len() implies text_lt(#[trigger] s[i], t) by {
            if i < s.len() - 1 {
                lemma_text_lt_transitive(s[i], s.last(), t);
            }
        }
        s.len() as int
    }
}

/// Every collection of texts has its ordered arrangement.
pub proof fn lemma_ordered_set(of: Seq<Seq<char>>)
    ensures
        is_ordered_set_of(ordered_set(of), of),
    decreases of.len(),
{
    if of.len() == 0 {
        let s = Seq::<Seq<char>>::empty();
        assert forall|t: Seq<char>| #[trigger] s.contains(t) <==> of.contains(t) by {}
        assert(is_ordered_set_of(s, of));
    } else {
        let rest = of.drop_last();
        let t = of.last();
        lemma_ordered_set(rest);
        let s = ordered_set(rest);
        let k = lemma_place(s, t);
        let r = if k < s.len() && s[k] == t {
            s
        } else {
            s.insert(k, t)
        };
        if !(k < s.len() && s[k] == t) {
            lemma_insert_ordered(s, k, t);
        }
        assert forall|x: Seq<char>| #[trigger] r.contains(x) <==> of.contains(x) by {
            lemma_last_or_rest(of, x);
            assert(s.contains(x) <==> rest.contains(x));
        }
        assert(is_ordered_set_of(r, of));
    }
}

proof fn lemma_last_or_rest(of: Seq<Seq<char>>, x: Seq<char>)
    requires
        of.len() > 0,
    ensures
        of.contains(x) <==> of.drop_last().contains(x) || of.last() == x,
{
    if of.contains(x) {
        let i = choose|i: int| 0 <= i < of.len() && of[i] == x;
        if i < of.len() - 1 {
            assert(of.drop_last()[i] == x);
        }
    }
    if of.drop_last().contains(x) {
        let i = choose|i: int| 0 <= i < of.drop_last().len() && of.drop_last()[i] == x;
        assert(of[i] == x);
    }
}

/// Sorts texts and leaves out repetitions.
pub fn sort_unique(texts: &Vec<String>) -> (r: Vec<String>)
    ensures
        text::views(r@) == ordered_set(text::views(texts@)),
{
    let mut out: Vec<String> = Vec::new();
    let mut i: usize = 0;
    proof {
        assert(text::views(texts@).take(0) =~= Seq::empty());
        assert(text::views(out@) =~= Seq::empty());
        assert(is_ordered_set_of(text::views(out@), text::views(texts@).take(0)));
    }
    while i < texts.len()
        invariant
            i <= texts.len(),
            is_ordered_set_of(text::views(out@), text::views(texts@).take(i as int)),
        decreases texts.len() - i,
    {
        let ghost s = text::views(out@);
        let ghost t = texts[i as int]@;
        let mut k: usize = 0;
        while k < out.len() && text_before_text(out[k].as_str(), texts[i].as_str())
            invariant
                k <= out.len(),
                i < texts.len(),
                s == text::views(out@),
                t == texts[i as int]@,
                forall|j: int| 0 <= j < k ==> text_lt(#[trigger] s[j], t),
            decreases out.len() - k,
        {
            assert(s[k as int] == out@[k as int]@);
            k = k + 1;
        }
        if k < out.len() {
            assert(s[k as int] == out@[k as int]@);
            proof {
                lemma_text_lt_total(s[k as int], t);
            }
        }
        let ghost of = text::views(texts@).take(i + 1);
        assert(of.drop_last() =~= text::views(texts@).take(i as int));
        if k < out.len() && out[k] == texts[i] {
            proof {
                assert(s[k as int] == t);
                assert forall|x: Seq<char>| #[trigger] s.contains(x) <==> of.contains(x) by {
                    lemma_last_or_rest(of, x);
                    assert(s.contains(x) <==> of.drop_last().contains(x));
                }
            }
        } else {
            let copy = texts[i].clone();
            out.insert(k, copy);
            proof {
                lemma_insert_ordered(s, k as int, t);
                assert(text::views(out@) =~= s.insert(k as int, t));
                assert forall|x: Seq<char>| #[trigger] text::views(out@).contains(x) <==> of.contains(
                    x,
                ) by {
                    lemma_last_or_rest(of, x);
                    assert(s.contains(x) <==> of.drop_last().contains(x));
                }
            }
        }
        i = i + 1;
    }
    proof {
        assert(text::views(texts@).take(texts.len() as int) =~= text::views(texts@));
        lemma_ordered_set_unique(text::views(out@), text::views(texts@));
    }
    out
}

/// Whether `a` and `b` agree in their first `k` characters, and `a` ends there
/// or has the smaller character.
pub open spec fn smaller_at(a: Seq<char>, b: Seq<char>, k: int) -> bool {
    &&& 0 <= k <= a.len()
    &&& k < b.len()
    &&& forall|i: int| 0 <= i < k ==> #[trigger] a[i] == b[i]
    &&& k < a.len() ==> a[k] < b[k]
}

/// Texts are ordered as words in a dictionary: by the first character in which
/// they differ, and the shorter first where one is the start of the other.
pub proof fn law_dictionary_order(a: Seq<char>, b: Seq<char>)
    ensures
        text_lt(a, b) <==> exists|k: int| smaller_at(a, b, k),
    decreases a.len(),
{
    if a.len() > 0 && b.len() > 0 {
        let x = a.drop_first();
        let y = b.drop_first();
        law_dictionary_order(x, y);
        if a[0] == b[0] {
            if text_lt(x, y) {
                let k = choose|k: int| smaller_at(x, y, k);
                assert forall|i: int| 0 <= i < k + 1 implies #[trigger] a[i] == b[i] by {
                    if i > 0 {
                        assert(x[i - 1] == y[i - 1]);
                    }
                }
                assert(smaller_at(a, b, k + 1));
            }
            if exists|k: int| smaller_at(a, b, k) {
                let k = choose|k: int| smaller_at(a, b, k);
                assert forall|i: int| 0 <= i < k - 1 implies #[trigger] x[i] == y[i] by {
                    assert(a[i + 1] == b[i + 1]);
                }
                assert(k > 0);
                assert(smaller_at(x, y, k - 1));
            }
        } else {
            if a[0] < b[0] {
                assert(smaller_at(a, b, 0));
            }
            if exists|k: int| smaller_at(a, b, k) {
                let k = choose|k: int| smaller_at(a, b, k);
                if k > 0 {
                    assert(a[0] == b[0]);
                }
            }
        }
    } else if b.len() > 0 {
        assert(smaller_at(a, b, 0));
    }
}

/// Sorting keeps what is there and nothing else, puts the smaller before the
/// larger, and leaves no text twice.
pub proof fn law_sorting_keeps_the_members(of: Seq<Seq<char>>)
    ensures
        ({
            let s = ordered_set(of);
            &&& forall|i: int| 0 <= i < of.len() ==> s.contains(#[trigger] of[i])
            &&& forall|k: int| 0 <= k < s.len() ==> of.contains(#[trigger] s[k])
            &&& forall|j: int, k: int|
                0 <= j < k < s.len() ==> text_lt(#[trigger] s[j], #[trigger] s[k]) && s[j] != s[k]
        }),
{
    lemma_ordered_set(of);
    let s = ordered_set(of);
    assert forall|i: int| 0 <= i < of.len() implies s.contains(#[trigger] of[i]) by {
        assert(of.contains(of[i]));
    }
    assert forall|k: int| 0 <= k < s.len() implies of.contains(#[trigger] s[k]) by {
        assert(s.contains(s[k]));
    }
    assert forall|j: int, k: int| 0 <= j < k < s.len() implies text_lt(
        #[trigger] s[j],
        #[trigger] s[k],
    ) && s[j] != s[k] by {
        lemma_text_lt_total(s[j], s[k]);
    }
}

} // verus!
