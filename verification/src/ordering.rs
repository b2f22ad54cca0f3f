use vstd::prelude::*;

verus! {

/// `a` sorts no later than `b`: character by character by code point, a
/// proper prefix first. This is the order of `String`'s `Ord` (by UTF-8
/// bytes, which order as the code points do).
pub open spec fn text_le(a: Seq<char>, b: Seq<char>) -> bool
    decreases a.len(),
{
    if a.len() == 0 {
        true
    } else if b.len() == 0 {
        false
    } else if a[0] < b[0] {
        true
    } else if a[0] == b[0] {
        text_le(a.drop_first(), b.drop_first())
    } else {
        false
    }
}

pub proof fn lemma_text_le_refl(a: Seq<char>)
    ensures
        text_le(a, a),
    decreases a.len(),
{
    if a.len() > 0 {
        lemma_text_le_refl(a.drop_first());
    }
}

pub proof fn lemma_text_le_total(a: Seq<char>, b: Seq<char>)
    ensures
        text_le(a, b) || text_le(b, a),
    decreases a.len(),
{
    if a.len() > 0 && b.len() > 0 && a[0] == b[0] {
        lemma_text_le_total(a.drop_first(), b.drop_first());
    }
}

pub proof fn lemma_text_le_trans(a: Seq<char>, b: Seq<char>, c: Seq<char>)
    requires
        text_le(a, b),
        text_le(b, c),
    ensures
        text_le(a, c),
    decreases a.len(),
{
    if a.len() > 0 && b.len() > 0 && c.len() > 0 && a[0] == b[0] && b[0] == c[0] {
        lemma_text_le_trans(a.drop_first(), b.drop_first(), c.drop_first());
    }
}

pub proof fn lemma_text_le_antisym(a: Seq<char>, b: Seq<char>)
    requires
        text_le(a, b),
        text_le(b, a),
    ensures
        a == b,
    decreases a.len(),
{
    if a.len() > 0 && b.len() > 0 {
        lemma_text_le_antisym(a.drop_first(), b.drop_first());
        assert(a =~= seq![a[0]] + a.drop_first());
        assert(b =~= seq![b[0]] + b.drop_first());
    }
}

/// Whether `a` sorts no later than `b`.
pub fn text_le_exec(a: &str, b: &str) -> (r: bool)
    ensures
        r == text_le(a@, b@),
{
    let n = a.unicode_len();
    let m = b.unicode_len();
    let mut i: usize = 0;
    assert(a@.subrange(0, n as int) =~= a@);
    assert(b@.subrange(0, m as int) =~= b@);
    while i < n && i < m
        invariant
            n == a@.len(),
            m == b@.len(),
            i <= n,
            i <= m,
            a@.subrange(0, i as int) == b@.subrange(0, i as int),
            text_le(a@, b@) == text_le(a@.subrange(i as int, n as int), b@.subrange(i as int, m as int)),
        decreases n - i,
    {
        let x = a.get_char(i);
        let y = b.get_char(i);
        let ghost sa = a@.subrange(i as int, n as int);
        let ghost sb = b@.subrange(i as int, m as int);
        assert(sa[0] == x && sb[0] == y);
        if x < y {
            return true;
        }
        if x != y {
            return false;
        }
        assert(sa.drop_first() =~= a@.subrange(i + 1, n as int));
        assert(sb.drop_first() =~= b@.subrange(i + 1, m as int));
        assert(a@.subrange(0, i + 1) =~= a@.subrange(0, i as int).push(x));
        assert(b@.subrange(0, i + 1) =~= b@.subrange(0, i as int).push(y));
        i = i + 1;
    }
    i == n
}

/// `le` is a total preorder: any two keys compare, and comparing is transitive.
pub open spec fn total_preorder<K>(le: spec_fn(K, K) -> bool) -> bool {
    &&& forall|a: K, b: K| #![trigger le(a, b)] le(a, b) || le(b, a)
    &&& forall|a: K, b: K, c: K| #![trigger le(a, b), le(b, c)] le(a, b) && le(b, c) ==> le(a, c)
}

/// The items are in the order of their keys.
pub open spec fn sorted_by<T, K>(s: Seq<T>, key: spec_fn(T) -> K, le: spec_fn(K, K) -> bool) -> bool {
    forall|i: int, j: int| 0 <= i < j < s.len() ==> le(key(#[trigger] s[i]), key(#[trigger] s[j]))
}

/// `x` inserted into `s` after every item whose key comes no later than its own.
pub open spec fn insert_by<T, K>(s: Seq<T>, x: T, key: spec_fn(T) -> K, le: spec_fn(K, K) -> bool) -> Seq<T>
    decreases s.len(),
{
    if s.len() == 0 {
        seq![x]
    } else if !le(key(s.last()), key(x)) {
        insert_by(s.drop_last(), x, key, le).push(s.last())
    } else {
        s.push(x)
    }
}

/// The items ordered by their keys; items with equal keys keep their relative
/// order (a stable sort, as `slice::sort_by` and `sort_by_cached_key` are).
pub open spec fn sort_by<T, K>(s: Seq<T>, key: spec_fn(T) -> K, le: spec_fn(K, K) -> bool) -> Seq<T>
    decreases s.len(),
{
    if s.len() == 0 {
        Seq::empty()
    } else {
        insert_by(sort_by(s.drop_last(), key, le), s.last(), key, le)
    }
}

proof fn lemma_insert_by<T, K>(s: Seq<T>, x: T, key: spec_fn(T) -> K, le: spec_fn(K, K) -> bool)
    requires
        total_preorder(le),
        sorted_by(s, key, le),
    ensures
        sorted_by(insert_by(s, x, key, le), key, le),
        insert_by(s, x, key, le).to_multiset() == s.to_multiset().insert(x),
        insert_by(s, x, key, le).len() == s.len() + 1,
    decreases s.len(),
{
    let r = insert_by(s, x, key, le);
    broadcast use vstd::seq_lib::group_to_multiset_ensures, vstd::multiset::group_multiset_properties;
    if s.len() == 0 {
        assert(r =~= s.push(x));
    } else if !le(key(s.last()), key(x)) {
        let t = s.drop_last();
        assert(sorted_by(t, key, le));
        lemma_insert_by(t, x, key, le);
        let rt = insert_by(t, x, key, le);
        assert(le(key(s.last()), key(x)) || le(key(x), key(s.last())));
        assert forall|i: int, j: int| 0 <= i < j < r.len() implies le(key(#[trigger] r[i]), key(#[trigger] r[j])) by {
            if j == r.len() - 1 {
                assert(rt[i] == r[i]);
                assert(rt.to_multiset().count(rt[i]) > 0);
                assert(t.to_multiset().insert(x).count(rt[i]) > 0);
                if rt[i] != x {
                    assert(t.to_multiset().count(rt[i]) > 0);
                    assert(t.contains(rt[i]));
                    let k = choose|k: int| 0 <= k < t.len() && t[k] == rt[i];
                    assert(s[k] == t[k]);
                    assert(le(key(s[k]), key(s[s.len() - 1])));
                }
            } else {
                assert(rt[i] == r[i] && rt[j] == r[j]);
            }
        }
        assert(s =~= t.push(s.last()));
        assert(r.to_multiset() =~= s.to_multiset().insert(x));
    } else {
        assert forall|i: int, j: int| 0 <= i < j < r.len() implies le(key(#[trigger] r[i]), key(#[trigger] r[j])) by {
            if j == r.len() - 1 {
                assert(r[i] == s[i]);
                if i < s.len() - 1 {
                    assert(le(key(s[i]), key(s[s.len() - 1])));
                }
            } else {
                assert(r[i] == s[i] && r[j] == s[j]);
            }
        }
        assert(r.to_multiset() =~= s.to_multiset().insert(x));
    }
}

/// A stable sort by a total preorder puts the items in key order and keeps
/// every one of them.
pub proof fn lemma_sort_by<T, K>(s: Seq<T>, key: spec_fn(T) -> K, le: spec_fn(K, K) -> bool)
    requires
        total_preorder(le),
    ensures
        sorted_by(sort_by(s, key, le), key, le),
        sort_by(s, key, le).to_multiset() == s.to_multiset(),
        sort_by(s, key, le).len() == s.len(),
    decreases s.len(),
{
    broadcast use vstd::seq_lib::group_to_multiset_ensures, vstd::multiset::group_multiset_properties;
    if s.len() == 0 {
        assert(sort_by(s, key, le) =~= s);
    } else {
        lemma_sort_by(s.drop_last(), key, le);
        lemma_insert_by(sort_by(s.drop_last(), key, le), s.last(), key, le);
        assert(s =~= s.drop_last().push(s.last()));
    }
}

/// Where `x` goes when inserted into `s`: after the last item whose key comes
/// no later than its own.
proof fn lemma_insert_by_at<T, K>(s: Seq<T>, x: T, key: spec_fn(T) -> K, le: spec_fn(K, K) -> bool, j: int)
    requires
        0 <= j <= s.len(),
        forall|k: int| j <= k < s.len() ==> !le(key(#[trigger] s[k]), key(x)),
        j > 0 ==> le(key(s[j - 1]), key(x)),
    ensures
        insert_by(s, x, key, le) == s.insert(j, x),
    decreases s.len(),
{
    if s.len() == 0 {
        assert(s.insert(j, x) =~= seq![x]);
    } else if j == s.len() {
        assert(s.insert(j, x) =~= s.push(x));
    } else {
        assert(!le(key(s[s.len() - 1]), key(x)));
        let t = s.drop_last();
        assert forall|k: int| j <= k < t.len() implies !le(key(#[trigger] t[k]), key(x)) by {
            assert(t[k] == s[k]);
        }
        if j > 0 {
            assert(t[j - 1] == s[j - 1]);
        }
        lemma_insert_by_at(t, x, key, le, j);
        assert(t.insert(j, x).push(s.last()) =~= s.insert(j, x));
    }
}

/// An executable sort key: its views are ordered by a total preorder, which
/// `key_le` decides.
pub trait SortKey: View + Sized {
    spec fn view_le(a: Self::V, b: Self::V) -> bool;

    proof fn lemma_view_order()
        ensures
            total_preorder(|a: Self::V, b: Self::V| Self::view_le(a, b));

    fn key_le(&self, other: &Self) -> (r: bool)
        ensures
            r == Self::view_le(self@, other@);
}

/// The text order.
pub open spec fn text_order() -> spec_fn(Seq<char>, Seq<char>) -> bool {
    |a: Seq<char>, b: Seq<char>| text_le(a, b)
}

pub proof fn lemma_text_order()
    ensures
        total_preorder(text_order()),
{
    assert forall|a: Seq<char>, b: Seq<char>| #![trigger text_order()(a, b)] text_order()(a, b) || text_order()(b, a) by {
        lemma_text_le_total(a, b);
    }
    assert forall|a: Seq<char>, b: Seq<char>, c: Seq<char>| #![trigger text_order()(a, b), text_order()(b, c)]
        text_order()(a, b) && text_order()(b, c) implies text_order()(a, c) by {
        lemma_text_le_trans(a, b, c);
    }
}

impl SortKey for String {
    open spec fn view_le(a: Seq<char>, b: Seq<char>) -> bool {
        text_le(a, b)
    }

    proof fn lemma_view_order() {
        lemma_text_order();
        assert(text_order() == (|a: Seq<char>, b: Seq<char>| Self::view_le(a, b)));
    }

    fn key_le(&self, other: &Self) -> (r: bool) {
        text_le_exec(self.as_str(), other.as_str())
    }
}

/// Strings sort in the text order.
pub proof fn lemma_string_order()
    ensures
        (|a: Seq<char>, b: Seq<char>| <String as SortKey>::view_le(a, b)) == text_order(),
{
    assert((|a: Seq<char>, b: Seq<char>| <String as SortKey>::view_le(a, b)) =~= text_order());
}

/// The items are in order of their text keys.
pub open spec fn sorted_by_text<T>(s: Seq<T>, key: spec_fn(T) -> Seq<char>) -> bool {
    sorted_by(s, key, text_order())
}

/// The items stably sorted by their text keys.
pub open spec fn sort_by_text<T>(s: Seq<T>, key: spec_fn(T) -> Seq<char>) -> Seq<T> {
    sort_by(s, key, text_order())
}

/// A stable sort by text key puts the items in key order and keeps every one
/// of them.
pub proof fn lemma_sort_by_text<T>(s: Seq<T>, key: spec_fn(T) -> Seq<char>)
    ensures
        sorted_by_text(sort_by_text(s, key), key),
        sort_by_text(s, key).to_multiset() == s.to_multiset(),
        sort_by_text(s, key).len() == s.len(),
{
    lemma_text_order();
    lemma_sort_by(s, key, text_order());
}

/// The items stably sorted by their keys, given beside them.
pub(crate) fn sort_keyed<T, K: SortKey>(items: Vec<T>, keys: Vec<K>, Ghost(key): Ghost<spec_fn(T) -> K::V>) -> (r: Vec<T>)
    requires
        items@.len() == keys@.len(),
        forall|i: int| 0 <= i < items@.len() ==> (#[trigger] keys@[i])@ == key(items@[i]),
    ensures
        r@ == sort_by(items@, key, |a: K::V, b: K::V| K::view_le(a, b)),
{
    let ghost le = |a: K::V, b: K::V| K::view_le(a, b);
    proof {
        K::lemma_view_order();
    }
    let ghost orig = items@;
    let mut items = items;
    let mut keys = keys;
    let n = items.len();
    let mut out: Vec<T> = Vec::new();
    let mut out_keys: Vec<K> = Vec::new();
    let mut done: usize = 0;
    assert(orig.subrange(0, 0) =~= Seq::<T>::empty());
    assert(orig.subrange(0, n as int) =~= orig);
    while done < n
        invariant
            n == orig.len(),
            le == (|a: K::V, b: K::V| K::view_le(a, b)),
            total_preorder(le),
            done <= n,
            items@ == orig.subrange(done as int, n as int),
            keys@.len() == items@.len(),
            forall|i: int| 0 <= i < items@.len() ==> (#[trigger] keys@[i])@ == key(items@[i]),
            out@ == sort_by(orig.subrange(0, done as int), key, le),
            out_keys@.len() == out@.len(),
            forall|i: int| 0 <= i < out@.len() ==> (#[trigger] out_keys@[i])@ == key(out@[i]),
            sorted_by(out@, key, le),
        decreases n - done,
    {
        assert(keys@[0]@ == key(items@[0]));
        let ghost kb = keys@;
        let x = items.remove(0);
        let k = keys.remove(0);
        assert forall|i: int| 0 <= i < items@.len() implies (#[trigger] keys@[i])@ == key(items@[i]) by {
            assert(keys@[i] == kb[i + 1]);
        }
        let mut lo: usize = 0;
        let mut hi: usize = out.len();
        while lo < hi
            invariant
                lo <= hi <= out@.len(),
                le == (|a: K::V, b: K::V| K::view_le(a, b)),
                total_preorder(le),
                out_keys@.len() == out@.len(),
                forall|i: int| 0 <= i < out@.len() ==> (#[trigger] out_keys@[i])@ == key(out@[i]),
                sorted_by(out@, key, le),
                k@ == key(x),
                forall|i: int| 0 <= i < lo ==> le(key(#[trigger] out@[i]), key(x)),
                forall|i: int| hi <= i < out@.len() ==> !le(key(#[trigger] out@[i]), key(x)),
            decreases hi - lo,
        {
            let mid = lo + (hi - lo) / 2;
            assert(out_keys@[mid as int]@ == key(out@[mid as int]));
            if out_keys[mid].key_le(&k) {
                assert(le(key(out@[mid as int]), key(x)));
                assert forall|i: int| 0 <= i < mid + 1 implies le(key(#[trigger] out@[i]), key(x)) by {
                    if i < mid {
                        assert(le(key(out@[i]), key(out@[mid as int])));
                    }
                }
                lo = mid + 1;
            } else {
                assert(!le(key(out@[mid as int]), key(x)));
                assert forall|i: int| mid <= i < out@.len() implies !le(key(#[trigger] out@[i]), key(x)) by {
                    if mid < i && le(key(out@[i]), key(x)) {
                        assert(le(key(out@[mid as int]), key(out@[i])));
                    }
                }
                hi = mid;
            }
        }
        proof {
            let pre = orig.subrange(0, done as int);
            assert(orig.subrange(0, done + 1).drop_last() =~= pre);
            assert(orig.subrange(0, done + 1).last() == x);
            lemma_insert_by_at(out@, x, key, le, lo as int);
            lemma_insert_by(out@, x, key, le);
        }
        let ghost okb = out_keys@;
        out.insert(lo, x);
        out_keys.insert(lo, k);
        assert forall|i: int| 0 <= i < out@.len() implies (#[trigger] out_keys@[i])@ == key(out@[i]) by {
            if i < lo {
                assert(out_keys@[i] == okb[i]);
            } else if i > lo {
                assert(out_keys@[i] == okb[i - 1]);
            }
        }
        done = done + 1;
    }
    out
}

} // verus!
