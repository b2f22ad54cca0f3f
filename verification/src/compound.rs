use vstd::prelude::*;
use crate::ordering::{
    lemma_text_le_antisym, lemma_text_le_refl, lemma_text_le_total, lemma_text_le_trans, text_le,
    text_le_exec, total_preorder, SortKey,
};
use crate::text::str_eq;

verus! {

/// One component of a compound sort key: a text or an optional number.
#[derive(Debug)]
pub enum KeyPart {
    Text(String),
    Number(Option<u32>),
}

/// What a key component stands for.
pub enum KeyPartView {
    Text(Seq<char>),
    Number(Option<u32>),
}

impl View for KeyPart {
    type V = KeyPartView;

    open spec fn view(&self) -> KeyPartView {
        match self {
            KeyPart::Text(s) => KeyPartView::Text(s@),
            KeyPart::Number(n) => KeyPartView::Number(*n),
        }
    }
}

/// A key made of several components, compared one after the other (as
/// tuples compare).
#[derive(Debug)]
pub struct CompoundKey {
    pub parts: Vec<KeyPart>,
}

impl View for CompoundKey {
    type V = Seq<KeyPartView>;

    open spec fn view(&self) -> Seq<KeyPartView> {
        self.parts@.map_values(|p: KeyPart| p@)
    }
}

/// Option order: nothing first, then by number.
pub open spec fn opt_lt(a: Option<u32>, b: Option<u32>) -> bool {
    match (a, b) {
        (None, Some(_)) => true,
        (Some(x), Some(y)) => x < y,
        _ => false,
    }
}

/// Strict order of components: texts by the text order, numbers by the
/// option order (texts before numbers, which never meet in one sort).
pub open spec fn part_lt(a: KeyPartView, b: KeyPartView) -> bool {
    match (a, b) {
        (KeyPartView::Text(x), KeyPartView::Text(y)) => !text_le(y, x),
        (KeyPartView::Number(x), KeyPartView::Number(y)) => opt_lt(x, y),
        (KeyPartView::Text(_), KeyPartView::Number(_)) => true,
        (KeyPartView::Number(_), KeyPartView::Text(_)) => false,
    }
}

/// Lexicographic order of compound keys.
pub open spec fn parts_le(a: Seq<KeyPartView>, b: Seq<KeyPartView>) -> bool
    decreases a.len(),
{
    if a.len() == 0 {
        true
    } else if b.len() == 0 {
        false
    } else if part_lt(a[0], b[0]) {
        true
    } else if a[0] == b[0] {
        parts_le(a.drop_first(), b.drop_first())
    } else {
        false
    }
}

proof fn lemma_part_lt(a: KeyPartView, b: KeyPartView, c: KeyPartView)
    ensures
        !part_lt(a, a),
        a != b ==> part_lt(a, b) || part_lt(b, a),
        part_lt(a, b) && part_lt(b, c) ==> part_lt(a, c),
        part_lt(a, b) ==> a != b,
{
    match a {
        KeyPartView::Text(x) => lemma_text_le_refl(x),
        _ => {},
    }
    match (a, b) {
        (KeyPartView::Text(x), KeyPartView::Text(y)) => {
            lemma_text_le_total(x, y);
            if text_le(x, y) && text_le(y, x) {
                lemma_text_le_antisym(x, y);
            }
        },
        _ => {},
    }
    match (a, b, c) {
        (KeyPartView::Text(x), KeyPartView::Text(y), KeyPartView::Text(z)) => {
            if part_lt(a, b) && part_lt(b, c) && text_le(z, x) {
                lemma_text_le_total(x, y);
                lemma_text_le_total(y, z);
                lemma_text_le_trans(z, x, y);
            }
        },
        _ => {},
    }
}

proof fn lemma_parts_le_total(a: Seq<KeyPartView>, b: Seq<KeyPartView>)
    ensures
        parts_le(a, b) || parts_le(b, a),
    decreases a.len(),
{
    if a.len() > 0 && b.len() > 0 {
        lemma_part_lt(a[0], b[0], a[0]);
        if a[0] == b[0] {
            lemma_parts_le_total(a.drop_first(), b.drop_first());
        }
    }
}

proof fn lemma_parts_le_trans(a: Seq<KeyPartView>, b: Seq<KeyPartView>, c: Seq<KeyPartView>)
    requires
        parts_le(a, b),
        parts_le(b, c),
    ensures
        parts_le(a, c),
    decreases a.len(),
{
    if a.len() > 0 && b.len() > 0 && c.len() > 0 {
        lemma_part_lt(a[0], b[0], c[0]);
        lemma_part_lt(b[0], c[0], a[0]);
        lemma_part_lt(a[0], c[0], b[0]);
        if a[0] == b[0] && b[0] == c[0] {
            lemma_parts_le_trans(a.drop_first(), b.drop_first(), c.drop_first());
        }
    }
}

/// The compound order.
pub open spec fn compound_order() -> spec_fn(Seq<KeyPartView>, Seq<KeyPartView>) -> bool {
    |a: Seq<KeyPartView>, b: Seq<KeyPartView>| parts_le(a, b)
}

/// Compound keys are totally preordered.
pub proof fn lemma_compound_order()
    ensures
        total_preorder(compound_order()),
{
    assert forall|a: Seq<KeyPartView>, b: Seq<KeyPartView>| #![trigger compound_order()(a, b)]
        compound_order()(a, b) || compound_order()(b, a) by {
        lemma_parts_le_total(a, b);
    }
    assert forall|a: Seq<KeyPartView>, b: Seq<KeyPartView>, c: Seq<KeyPartView>|
        #![trigger compound_order()(a, b), compound_order()(b, c)]
        compound_order()(a, b) && compound_order()(b, c) implies compound_order()(a, c) by {
        lemma_parts_le_trans(a, b, c);
    }
}

/// Compound keys sort in the compound order.
pub proof fn lemma_compound_key_order()
    ensures
        (|a: Seq<KeyPartView>, b: Seq<KeyPartView>| <CompoundKey as SortKey>::view_le(a, b)) == compound_order(),
{
    assert((|a: Seq<KeyPartView>, b: Seq<KeyPartView>| <CompoundKey as SortKey>::view_le(a, b)) =~= compound_order());
}

impl KeyPart {
    fn lt(&self, other: &KeyPart) -> (r: bool)
        ensures
            r == part_lt(self@, other@),
    {
        match (self, other) {
            (KeyPart::Text(x), KeyPart::Text(y)) => !text_le_exec(y.as_str(), x.as_str()),
            (KeyPart::Number(x), KeyPart::Number(y)) => match (x, y) {
                (None, Some(_)) => true,
                (Some(p), Some(q)) => *p < *q,
                _ => false,
            },
            (KeyPart::Text(_), KeyPart::Number(_)) => true,
            (KeyPart::Number(_), KeyPart::Text(_)) => false,
        }
    }

    fn same(&self, other: &KeyPart) -> (r: bool)
        ensures
            r == (self@ == other@),
    {
        match (self, other) {
            (KeyPart::Text(x), KeyPart::Text(y)) => str_eq(x.as_str(), y.as_str()),
            (KeyPart::Number(x), KeyPart::Number(y)) => match (x, y) {
                (None, None) => true,
                (Some(p), Some(q)) => *p == *q,
                _ => false,
            },
            _ => false,
        }
    }
}

impl SortKey for CompoundKey {
    open spec fn view_le(a: Seq<KeyPartView>, b: Seq<KeyPartView>) -> bool {
        parts_le(a, b)
    }

    proof fn lemma_view_order() {
        lemma_compound_order();
        assert(compound_order() =~= (|a: Seq<KeyPartView>, b: Seq<KeyPartView>| Self::view_le(a, b)));
    }

    fn key_le(&self, other: &Self) -> (r: bool) {
        let n = self.parts.len();
        let m = other.parts.len();
        let mut i: usize = 0;
        assert(self@.subrange(0, n as int) =~= self@);
        assert(other@.subrange(0, m as int) =~= other@);
        while i < n && i < m
            invariant
                n == self@.len(),
                m == other@.len(),
                n == self.parts@.len(),
                m == other.parts@.len(),
                i <= n,
                i <= m,
                parts_le(self@, other@) == parts_le(self@.subrange(i as int, n as int), other@.subrange(i as int, m as int)),
            decreases n - i,
        {
            let ghost sa = self@.subrange(i as int, n as int);
            let ghost sb = other@.subrange(i as int, m as int);
            assert(sa[0] == self.parts@[i as int]@ && sb[0] == other.parts@[i as int]@);
            if self.parts[i].lt(&other.parts[i]) {
                return true;
            }
            if !self.parts[i].same(&other.parts[i]) {
                return false;
            }
            assert(sa.drop_first() =~= self@.subrange(i + 1, n as int));
            assert(sb.drop_first() =~= other@.subrange(i + 1, m as int));
            i = i + 1;
        }
        i == n
    }
}

} // verus!
