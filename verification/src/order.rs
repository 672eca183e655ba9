//! Lexicographic order on text and a stable sort by a text key.

use vstd::prelude::*;

use crate::text::chars_of;

verus! {

/// `a` comes strictly before `b`, comparing characters by code point.
pub open spec fn lex_lt(a: Seq<char>, b: Seq<char>) -> bool
    decreases a.len(),
{
    if a.len() == 0 {
        b.len() > 0
    } else if b.len() == 0 {
        false
    } else if a[0] != b[0] {
        a[0] < b[0]
    } else {
        lex_lt(a.drop_first(), b.drop_first())
    }
}

pub proof fn lemma_lex_irreflexive(a: Seq<char>)
    ensures
        !lex_lt(a, a),
    decreases a.len(),
{
    if a.len() > 0 {
        lemma_lex_irreflexive(a.drop_first());
    }
}

pub proof fn lemma_lex_transitive(a: Seq<char>, b: Seq<char>, c: Seq<char>)
    requires
        lex_lt(a, b),
        lex_lt(b, c),
    ensures
        lex_lt(a, c),
    decreases a.len(),
{
    if a.len() > 0 && b.len() > 0 && c.len() > 0 {
        if a[0] == b[0] && b[0] == c[0] {
            lemma_lex_transitive(a.drop_first(), b.drop_first(), c.drop_first());
        }
    }
}

pub proof fn lemma_lex_total(a: Seq<char>, b: Seq<char>)
    ensures
        a == b || lex_lt(a, b) || lex_lt(b, a),
    decreases a.len(),
{
    if a.len() > 0 && b.len() > 0 {
        if a[0] == b[0] {
            lemma_lex_total(a.drop_first(), b.drop_first());
            if a.drop_first() == b.drop_first() {
                assert(a =~= seq![a[0]] + a.drop_first());
                assert(b =~= seq![b[0]] + b.drop_first());
            }
        }
    } else if a.len() == 0 && b.len() == 0 {
        assert(a =~= b);
    }
}

/// `a` comes strictly before `b` in code point order.
pub fn lex_less(a: &[char], b: &[char]) -> (r: bool)
    ensures
        r == lex_lt(a@, b@),
{
    let mut i: usize = 0;
    assert(a@.skip(0) =~= a@);
    assert(b@.skip(0) =~= b@);
    while i < a.len() && i < b.len() && a[i] == b[i]
        invariant
            i <= a@.len(),
            i <= b@.len(),
            lex_lt(a@, b@) == lex_lt(a@.skip(i as int), b@.skip(i as int)),
        decreases a@.len() - i,
    {
        assert(a@.skip(i as int).drop_first() =~= a@.skip(i + 1));
        assert(b@.skip(i as int).drop_first() =~= b@.skip(i + 1));
        i += 1;
    }
    if i == a.len() {
        i < b.len()
    } else if i == b.len() {
        false
    } else {
        a[i] < b[i]
    }
}

/// Values sorted by a text key.
pub trait SortKey {
    spec fn sort_key(&self) -> Seq<char>;

    fn key_chars(&self) -> (r: Vec<char>)
        ensures
            r@ == self.sort_key(),
    ;
}

impl SortKey for String {
    open spec fn sort_key(&self) -> Seq<char> {
        self@
    }

    fn key_chars(&self) -> (r: Vec<char>) {
        chars_of(self.as_str())
    }
}

/// Where a value with key `k` goes among sorted keys: after every key that is not
/// greater than `k`, which keeps equal keys in arrival order.
pub open spec fn insert_pos(keys: Seq<Seq<char>>, k: Seq<char>) -> int
    decreases keys.len(),
{
    if keys.len() == 0 {
        0
    } else if lex_lt(k, keys[0]) {
        0
    } else {
        1 + insert_pos(keys.drop_first(), k)
    }
}

pub open spec fn keys_of<T: SortKey>(s: Seq<T>) -> Seq<Seq<char>> {
    s.map_values(|t: T| t.sort_key())
}

/// The stable sort of `s` by key: each value, in order, inserted after the values already
/// placed whose keys are not greater.
pub open spec fn sorted_by_key<T: SortKey>(s: Seq<T>) -> Seq<T>
    decreases s.len(),
{
    if s.len() == 0 {
        s
    } else {
        let pre = sorted_by_key(s.drop_last());
        pre.insert(insert_pos(keys_of(pre), s.last().sort_key()), s.last())
    }
}

pub open spec fn is_sorted_by_key<T: SortKey>(s: Seq<T>) -> bool {
    forall|i: int, j: int|
        0 <= i < j < s.len() ==> !lex_lt(#[trigger] s[j].sort_key(), #[trigger] s[i].sort_key())
}

proof fn lemma_insert_pos_bounds(keys: Seq<Seq<char>>, k: Seq<char>)
    ensures
        0 <= insert_pos(keys, k) <= keys.len(),
        forall|i: int| 0 <= i < insert_pos(keys, k) ==> !lex_lt(k, #[trigger] keys[i]),
        insert_pos(keys, k) < keys.len() ==> lex_lt(k, keys[insert_pos(keys, k)]),
    decreases keys.len(),
{
    if keys.len() > 0 && !lex_lt(k, keys[0]) {
        lemma_insert_pos_bounds(keys.drop_first(), k);
        assert forall|i: int| 0 <= i < insert_pos(keys, k) implies !lex_lt(k, #[trigger] keys[i]) by {
            if i > 0 {
                assert(keys[i] == keys.drop_first()[i - 1]);
            }
        }
    }
}

proof fn lemma_insert_pos_first(keys: Seq<Seq<char>>, k: Seq<char>, j: int)
    requires
        0 <= j <= keys.len(),
        forall|i: int| 0 <= i < j ==> !lex_lt(k, #[trigger] keys[i]),
        j < keys.len() ==> lex_lt(k, keys[j]),
    ensures
        insert_pos(keys, k) == j,
    decreases j,
{
    if j > 0 {
        assert(!lex_lt(k, keys[0]));
        assert forall|i: int| 0 <= i < j - 1 implies !lex_lt(k, #[trigger] keys.drop_first()[i]) by {
            assert(keys.drop_first()[i] == keys[i + 1]);
        }
        lemma_insert_pos_first(keys.drop_first(), k, j - 1);
    }
}

/// The stable sort of `v` by key; see `sorted_by_key`.
pub fn sort_by_key<T: SortKey>(v: Vec<T>) -> (r: Vec<T>)
    ensures
        r@ == sorted_by_key(v@),
{
    let mut input = v;
    let mut out: Vec<T> = Vec::new();
    let ghost all = input@;
    let total = input.len();
    let mut n: usize = 0;
    assert(all.take(0) =~= Seq::<T>::empty());
    while input.len() > 0
        invariant
            n + input@.len() == all.len(),
            all.len() == total,
            input@ == all.skip(n as int),
            out@ == sorted_by_key(all.take(n as int)),
        decreases input@.len(),
    {
        let x = input.remove(0);
        let k = x.key_chars();
        let mut j: usize = 0;
        while j < out.len()
            invariant
                j <= out@.len(),
                forall|i: int| 0 <= i < j ==> !lex_lt(k@, #[trigger] keys_of(out@)[i]),
            ensures
                j <= out@.len(),
                forall|i: int| 0 <= i < j ==> !lex_lt(k@, #[trigger] keys_of(out@)[i]),
                j < out@.len() ==> lex_lt(k@, keys_of(out@)[j as int]),
            decreases out@.len() - j,
        {
            let kj = out[j].key_chars();
            if lex_less(k.as_slice(), kj.as_slice()) {
                assert(keys_of(out@)[j as int] == out@[j as int].sort_key());
                break;
            }
            assert(keys_of(out@)[j as int] == out@[j as int].sort_key());
            j += 1;
        }
        proof {
            assert(keys_of(out@).len() == out@.len());
            if j < out@.len() {
                assert(keys_of(out@)[j as int] == out@[j as int].sort_key());
            }
            lemma_insert_pos_first(keys_of(out@), k@, j as int);
            assert(all.take(n + 1).drop_last() =~= all.take(n as int));
            assert(all.take(n + 1).last() == x);
        }
        out.insert(j, x);
        n += 1;
        assert(input@ =~= all.skip(n as int));
    }
    assert(all.take(n as int) =~= all);
    out
}

/// Inserting at `insert_pos` keeps a sorted sequence sorted.
proof fn lemma_insert_keeps_sorted<T: SortKey>(s: Seq<T>, x: T)
    requires
        is_sorted_by_key(s),
    ensures
        is_sorted_by_key(s.insert(insert_pos(keys_of(s), x.sort_key()), x)),
{
    let p = insert_pos(keys_of(s), x.sort_key());
    lemma_insert_pos_bounds(keys_of(s), x.sort_key());
    let r = s.insert(p, x);
    assert forall|i: int, j: int| 0 <= i < j < r.len() implies !lex_lt(
        #[trigger] r[j].sort_key(),
        #[trigger] r[i].sort_key(),
    ) by {
        if i < p && j == p {
            assert(keys_of(s)[i] == s[i].sort_key());
            assert(r[i] == s[i]);
        } else if i == p && j > p {
            assert(r[j] == s[j - 1]);
            if j - 1 == p {
                assert(keys_of(s)[p] == s[p].sort_key());
                if lex_lt(s[p].sort_key(), x.sort_key()) {
                    lemma_lex_transitive(x.sort_key(), s[p].sort_key(), x.sort_key());
                    lemma_lex_irreflexive(x.sort_key());
                }
            } else {
                assert(keys_of(s)[p] == s[p].sort_key());
                if lex_lt(s[j - 1].sort_key(), x.sort_key()) {
                    // s[p] <= s[j-1] < x, but x < s[p]
                    lemma_lex_total(s[p].sort_key(), s[j - 1].sort_key());
                    if lex_lt(s[p].sort_key(), s[j - 1].sort_key()) {
                        lemma_lex_transitive(x.sort_key(), s[p].sort_key(), s[j - 1].sort_key());
                        lemma_lex_transitive(x.sort_key(), s[j - 1].sort_key(), x.sort_key());
                    } else if s[p].sort_key() == s[j - 1].sort_key() {
                        lemma_lex_transitive(x.sort_key(), s[p].sort_key(), x.sort_key());
                    }
                    lemma_lex_irreflexive(x.sort_key());
                }
            }
        } else if i < p && j > p {
            assert(r[i] == s[i]);
            assert(r[j] == s[j - 1]);
        } else if j < p {
            assert(r[i] == s[i]);
            assert(r[j] == s[j]);
        } else {
            assert(r[i] == s[i - 1]);
            assert(r[j] == s[j - 1]);
        }
    }
}

/// The stable sort puts keys in order.
pub proof fn lemma_sorted_by_key_is_sorted<T: SortKey>(s: Seq<T>)
    ensures
        is_sorted_by_key(sorted_by_key(s)),
    decreases s.len(),
{
    if s.len() > 0 {
        lemma_sorted_by_key_is_sorted(s.drop_last());
        lemma_insert_keeps_sorted(sorted_by_key(s.drop_last()), s.last());
    }
}

/// The stable sort neither adds nor drops values.
pub proof fn lemma_sorted_by_key_permutes<T: SortKey>(s: Seq<T>)
    ensures
        sorted_by_key(s).to_multiset() == s.to_multiset(),
    decreases s.len(),
{
    if s.len() > 0 {
        lemma_sorted_by_key_permutes(s.drop_last());
        let pre = sorted_by_key(s.drop_last());
        let p = insert_pos(keys_of(pre), s.last().sort_key());
        lemma_insert_pos_bounds(keys_of(pre), s.last().sort_key());
        vstd::seq_lib::to_multiset_insert(pre, p, s.last());
        vstd::seq_lib::to_multiset_build(s.drop_last(), s.last());
        assert(s =~= s.drop_last().push(s.last()));
    }
}

} // verus!
