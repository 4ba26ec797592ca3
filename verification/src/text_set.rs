//! Sets of texts, held in ascending order.

use crate::text::chars_of;
use vstd::prelude::*;

verus! {

/// The order of texts by their characters, the first difference deciding.
pub open spec fn text_before(a: Seq<char>, b: Seq<char>) -> bool
    decreases a.len(),
{
    if b.len() == 0 {
        false
    } else if a.len() == 0 {
        true
    } else if a[0] != b[0] {
        a[0] < b[0]
    } else {
        text_before(a.skip(1), b.skip(1))
    }
}

/// No text comes before itself.
pub proof fn lemma_before_irreflexive(a: Seq<char>)
    ensures
        !text_before(a, a),
    decreases a.len(),
{
    if a.len() > 0 {
        lemma_before_irreflexive(a.skip(1));
    }
}

/// Of two different texts, one comes before the other.
pub proof fn lemma_before_total(a: Seq<char>, b: Seq<char>)
    ensures
        a == b || text_before(a, b) || text_before(b, a),
    decreases a.len(),
{
    if a.len() > 0 && b.len() > 0 && a[0] == b[0] {
        lemma_before_total(a.skip(1), b.skip(1));
        if a.skip(1) == b.skip(1) {
            assert(a =~= seq![a[0]] + a.skip(1));
            assert(b =~= seq![b[0]] + b.skip(1));
        }
    } else if a.len() == 0 && b.len() == 0 {
        assert(a =~= b);
    }
}

/// The order is transitive.
pub proof fn lemma_before_transitive(a: Seq<char>, b: Seq<char>, c: Seq<char>)
    requires
        text_before(a, b),
        text_before(b, c),
    ensures
        text_before(a, c),
    decreases a.len(),
{
    if a.len() > 0 && b.len() > 0 && c.len() > 0 && a[0] == b[0] && b[0] == c[0] {
        lemma_before_transitive(a.skip(1), b.skip(1), c.skip(1));
    }
}

/// Whether one text comes before another.
pub fn before(a: &str, b: &str) -> (before: bool)
    ensures
        before == text_before(a@, b@),
{
    let left = chars_of(a);
    let right = chars_of(b);
    let mut i: usize = 0;
    assert(left@.skip(0) =~= left@);
    assert(right@.skip(0) =~= right@);
    while i < left.len() && i < right.len() && left[i] == right[i]
        invariant
            i <= left@.len(),
            i <= right@.len(),
            text_before(left@, right@) == text_before(left@.skip(i as int), right@.skip(i as int)),
        decreases left@.len() - i,
    {
        assert(left@.skip(i as int).skip(1) =~= left@.skip(i + 1));
        assert(right@.skip(i as int).skip(1) =~= right@.skip(i + 1));
        i += 1;
    }
    if i == right.len() {
        false
    } else if i == left.len() {
        true
    } else {
        left[i] < right[i]
    }
}

/// A set of texts in ascending order, none twice.
#[derive(Clone, Debug, PartialEq, Eq)]
pub struct TextSet {
    items: Vec<String>,
}

/// The texts of a list ascend.
pub open spec fn texts_ascend(items: Seq<String>) -> bool {
    forall|i: int, j: int|
        0 <= i < j < items.len() ==> text_before((#[trigger] items[i])@, (#[trigger] items[j])@)
}

/// Entry `i` of a list is the text.
pub open spec fn text_at(items: Seq<String>, text: Seq<char>, i: int) -> bool {
    0 <= i < items.len() && items[i]@ == text
}

/// A list holds the text.
pub open spec fn holds_text(items: Seq<String>, text: Seq<char>) -> bool {
    exists|i: int| text_at(items, text, i)
}

impl View for TextSet {
    type V = Set<Seq<char>>;

    closed spec fn view(&self) -> Set<Seq<char>> {
        Set::new(|text: Seq<char>| holds_text(self.items@, text))
    }
}

impl TextSet {
    /// The texts ascend.
    pub closed spec fn wf(&self) -> bool {
        texts_ascend(self.items@)
    }

    /// The texts in order.
    pub closed spec fn in_order(&self) -> Seq<String> {
        self.items@
    }

    /// No text.
    pub fn new() -> (set: Self)
        ensures
            set.wf(),
            set@ == Set::<Seq<char>>::empty(),
            set.in_order().len() == 0,
    {
        let set = TextSet { items: Vec::new() };
        assert(set@ =~= Set::<Seq<char>>::empty());
        set
    }

    /// The texts in ascending order.
    pub fn items(&self) -> (items: &Vec<String>)
        requires
            self.wf(),
        ensures
            items@ == self.in_order(),
            texts_ascend(items@),
            forall|text: Seq<char>| #[trigger] self@.contains(text) <==> holds_text(items@, text),
    {
        &self.items
    }

    /// The place of a text: where it is, or where it would go.
    fn place(&self, text: &str) -> (at: usize)
        requires
            self.wf(),
        ensures
            at <= self.items@.len(),
            forall|i: int| 0 <= i < at ==> text_before((#[trigger] self.items@[i])@, text@),
            at < self.items@.len() ==> !text_before(self.items@[at as int]@, text@),
    {
        let mut at: usize = 0;
        while at < self.items.len() && before(self.items[at].as_str(), text)
            invariant
                at <= self.items@.len(),
                forall|i: int| 0 <= i < at ==> text_before((#[trigger] self.items@[i])@, text@),
            decreases self.items@.len() - at,
        {
            at += 1;
        }
        at
    }

    /// Whether a text is in the set.
    pub fn contains(&self, text: &str) -> (present: bool)
        requires
            self.wf(),
        ensures
            present == self@.contains(text@),
    {
        let at: usize = self.place(text);
        let present = at < self.items.len() && crate::text::same_text(
            self.items[at].as_str(),
            text,
        );
        proof {
            let items = self.items@;
            if present {
                assert(text_at(items, text@, at as int));
            } else if holds_text(items, text@) {
                let i = choose|i: int| text_at(items, text@, i);
                lemma_before_irreflexive(text@);
                if i > at {
                    assert(text_before(items[at as int]@, items[i]@));
                }
                assert(i == at);
            }
        }
        present
    }

    /// Puts a text in. Returns whether it was not there.
    pub fn insert(&mut self, text: String) -> (fresh: bool)
        requires
            old(self).wf(),
        ensures
            final(self).wf(),
            fresh == !old(self)@.contains(text@),
            final(self)@ == old(self)@.insert(text@),
            final(self).in_order().len() == old(self).in_order().len() + if fresh {
                1int
            } else {
                0
            },
    {
        if self.contains(text.as_str()) {
            assert(self@ =~= self@.insert(text@));
            return false;
        }
        let ghost start = self.items@;
        let ghost added = text;
        let at: usize = self.place(text.as_str());
        self.items.insert(at, text);
        proof {
            let grown = self.items@;
            assert(grown == start.insert(at as int, added));
            assert forall|i: int, j: int| 0 <= i < j < grown.len() implies text_before(
                (#[trigger] grown[i])@,
                (#[trigger] grown[j])@,
            ) by {
                if i < at {
                    if j > at {
                        assert(text_before(start[i]@, start[j - 1]@));
                    } else if j < at {
                        assert(text_before(start[i]@, start[j]@));
                    }
                } else if i > at {
                    assert(text_before(start[i - 1]@, start[j - 1]@));
                } else {
                    // The text goes in front of everything that does not come before it.
                    let here = start[at as int];
                    assert(text_at(start, here@, at as int));
                    lemma_before_total(here@, added@);
                    assert(here@ != added@);
                    assert(text_before(added@, here@));
                    if j - 1 > at {
                        assert(text_before(here@, start[j - 1]@));
                        lemma_before_transitive(added@, here@, start[j - 1]@);
                    }
                }
            }
            assert forall|other: Seq<char>| #[trigger] self@.contains(other) <==> old(self)@.insert(added@).contains(other) by {
                if holds_text(grown, other) {
                    let i = choose|i: int| text_at(grown, other, i);
                    if i < at {
                        assert(text_at(start, other, i));
                    } else if i > at {
                        assert(text_at(start, other, i - 1));
                    }
                }
                if holds_text(start, other) {
                    let i = choose|i: int| text_at(start, other, i);
                    assert(text_at(grown, other, if i < at { i } else { i + 1 }));
                }
                if other == added@ {
                    assert(text_at(grown, other, at as int));
                }
            }
            assert(self@ =~= old(self)@.insert(added@));
        }
        true
    }
}

/// Of two texts the one comes first that has the smaller character where they first differ,
/// or that ends where the other goes on.
pub proof fn law_the_first_difference_decides(
    common: Seq<char>,
    a: char,
    rest: Seq<char>,
    b: char,
    other: Seq<char>,
)
    ensures
        a != b ==> (text_before(common + (seq![a] + rest), common + (seq![b] + other)) <==> a < b),
        text_before(common, common + (seq![b] + other)),
        !text_before(common + (seq![b] + other), common),
    decreases common.len(),
{
    let left = common + (seq![a] + rest);
    let right = common + (seq![b] + other);
    if common.len() > 0 {
        let shorter = common.skip(1);
        law_the_first_difference_decides(shorter, a, rest, b, other);
        assert(left.skip(1) =~= shorter + (seq![a] + rest));
        assert(right.skip(1) =~= shorter + (seq![b] + other));
        assert(left[0] == common[0] && right[0] == common[0]);
    } else {
        assert(left[0] == a && right[0] == b);
    }
}

} // verus!
