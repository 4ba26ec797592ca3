//! Paths of documents: bytes with separators between names.

use crate::keyed::ListKey;
use vstd::prelude::*;

verus! {

/// The byte between the names of a path.
pub const SEPARATOR: u8 = 47;

/// The byte of a dot.
pub const DOT: u8 = 46;

/// The place that a path leads to: whether it starts at the root, and the names on the
/// way.
#[verifier::ext_equal]
pub struct PlaceView {
    pub rooted: bool,
    pub names: Seq<Seq<u8>>,
}

/// Where the last name of a path begins.
pub open spec fn name_start(path: Seq<u8>) -> int
    decreases path.len(),
{
    if path.len() == 0 || path.last() == SEPARATOR {
        path.len() as int
    } else {
        name_start(path.drop_last())
    }
}

/// The names of a path. Separators that follow each other are one, and so is one at
/// the end; a dot that is a name of its own means the directory that it stands in and
/// is left out, but for one at the very beginning.
pub open spec fn names_of(path: Seq<u8>) -> Seq<Seq<u8>>
    decreases path.len(),
{
    let start = name_start(path);
    let name = path.skip(start);
    if start <= 0 || start > path.len() {
        if name.len() == 0 {
            Seq::empty()
        } else {
            seq![name]
        }
    } else if name.len() == 0 || name == seq![DOT] {
        names_of(path.take(start - 1))
    } else {
        names_of(path.take(start - 1)).push(name)
    }
}

/// The place that a path leads to.
pub open spec fn place_of(path: Seq<u8>) -> PlaceView {
    PlaceView { rooted: path.len() > 0 && path[0] == SEPARATOR, names: names_of(path) }
}

/// Names, the last one first, in their order.
pub open spec fn backwards(names: Seq<Vec<u8>>) -> Seq<Seq<u8>> {
    Seq::new(names.len(), |i: int| names[names.len() - 1 - i]@)
}

/// Where the last name of the first bytes of a path begins.
pub fn last_name_start(path: &[u8], end: usize) -> (start: usize)
    requires
        end <= path@.len(),
    ensures
        start <= end,
        start == name_start(path@.take(end as int)),
{
    let ghost whole = path@.take(end as int);
    let mut start: usize = end;
    assert(whole.take(start as int) =~= whole);
    while start > 0 && path[start - 1] != SEPARATOR
        invariant
            start <= end <= path@.len(),
            whole == path@.take(end as int),
            name_start(whole) == name_start(whole.take(start as int)),
        decreases start,
    {
        assert(whole.take(start as int).drop_last() =~= whole.take(start - 1));
        start -= 1;
    }
    start
}

/// A part of a path.
pub fn part(path: &[u8], start: usize, end: usize) -> (name: Vec<u8>)
    requires
        start <= end <= path@.len(),
    ensures
        name@ == path@.subrange(start as int, end as int),
{
    let mut name: Vec<u8> = Vec::new();
    let mut i: usize = start;
    assert(name@ =~= path@.subrange(start as int, i as int));
    while i < end
        invariant
            start <= i <= end <= path@.len(),
            name@ == path@.subrange(start as int, i as int),
        decreases end - i,
    {
        name.push(path[i]);
        assert(name@ =~= path@.subrange(start as int, i + 1));
        i += 1;
    }
    name
}

/// The names of a path, the last one first.
fn last_names(path: &Vec<u8>) -> (names: Vec<Vec<u8>>)
    ensures
        backwards(names@) == names_of(path@),
{
    let mut names: Vec<Vec<u8>> = Vec::new();
    let mut end: usize = path.len();
    assert(path@.take(end as int) =~= path@);
    assert(names_of(path@) + backwards(names@) =~= names_of(path@));
    loop
        invariant
            end <= path@.len(),
            names_of(path@.take(end as int)) + backwards(names@) == names_of(path@),
        decreases end,
    {
        let start: usize = last_name_start(path.as_slice(), end);
        let ghost whole = path@.take(end as int);
        let ghost behind = names@;
        let name = part(path.as_slice(), start, end);
        assert(name@ =~= whole.skip(start as int));
        let named = name.len() > 0 && (start == 0 || name.len() > 1 || name[0] != DOT);
        proof {
            if name@.len() == 1 && name@[0] == DOT {
                assert(name@ =~= seq![DOT]);
            }
            if name@ == seq![DOT] {
                assert(name@[0] == DOT && name@.len() == 1);
            }
        }
        let ghost last = name@;
        if named {
            names.push(name);
            assert(backwards(names@) =~= seq![last] + backwards(behind));
        }
        if start == 0 {
            assert(backwards(names@) =~= names_of(whole) + backwards(behind));
            return names;
        }
        proof {
            let shorter = names_of(whole.take(start - 1));
            assert(whole.take(start - 1) =~= path@.take(start - 1));
            if named {
                assert(shorter.push(last) + backwards(behind) =~= shorter + backwards(names@));
            }
        }
        end = start - 1;
    }
}

/// Whether two paths lead to the same place.
pub fn same_place(a: &Vec<u8>, b: &Vec<u8>) -> (same: bool)
    ensures
        same == (place_of(a@) == place_of(b@)),
{
    let a_rooted = a.len() > 0 && a[0] == SEPARATOR;
    let b_rooted = b.len() > 0 && b[0] == SEPARATOR;
    if a_rooted != b_rooted {
        return false;
    }
    let a_names = last_names(a);
    let b_names = last_names(b);
    if a_names.len() != b_names.len() {
        assert(backwards(a_names@).len() != backwards(b_names@).len());
        return false;
    }
    let mut i: usize = 0;
    while i < a_names.len()
        invariant
            i <= a_names@.len(),
            a_names@.len() == b_names@.len(),
            backwards(a_names@) == names_of(a@),
            backwards(b_names@) == names_of(b@),
            forall|j: int| 0 <= j < i ==> (#[trigger] a_names@[j])@ == b_names@[j]@,
        decreases a_names@.len() - i,
    {
        if !a_names[i].same_key(&b_names[i]) {
            proof {
                let at = a_names@.len() - 1 - i;
                assert(backwards(a_names@)[at] == a_names@[i as int]@);
                assert(backwards(b_names@)[at] == b_names@[i as int]@);
            }
            return false;
        }
        i += 1;
    }
    assert(names_of(a@) =~= names_of(b@));
    true
}

/// A path as it was spelled. Two are equal where they lead to the same place.
#[derive(Debug)]
pub struct SourcePath {
    bytes: Vec<u8>,
}

impl View for SourcePath {
    type V = PlaceView;

    open spec fn view(&self) -> PlaceView {
        place_of(self.spelling())
    }
}

impl SourcePath {
    /// The path as it was spelled.
    pub closed spec fn spelling(&self) -> Seq<u8> {
        self.bytes@
    }

    /// A path of these bytes.
    pub fn new(bytes: Vec<u8>) -> (path: SourcePath)
        ensures
            path.spelling() == bytes@,
    {
        SourcePath { bytes }
    }

    /// The path as it was spelled.
    pub fn bytes(&self) -> (bytes: &Vec<u8>)
        ensures
            bytes@ == self.spelling(),
    {
        &self.bytes
    }
}

impl PartialEq for SourcePath {
    fn eq(&self, other: &Self) -> (same: bool) {
        same_place(&self.bytes, &other.bytes)
    }
}

impl vstd::std_specs::cmp::PartialEqSpecImpl for SourcePath {
    open spec fn obeys_eq_spec() -> bool {
        true
    }

    open spec fn eq_spec(&self, other: &Self) -> bool {
        self@ == other@
    }
}

impl Eq for SourcePath {

}

impl Clone for SourcePath {
    fn clone(&self) -> (copy: Self)
        ensures
            copy.spelling() == self.spelling(),
    {
        SourcePath { bytes: self.bytes.copy_key() }
    }
}

impl std::hash::Hash for SourcePath {
    /// One place has many spellings, so the spelling does not count.
    fn hash<H: std::hash::Hasher>(&self, _state: &mut H) {
    }
}

impl ListKey for SourcePath {
    fn same_key(&self, other: &Self) -> (same: bool) {
        same_place(&self.bytes, &other.bytes)
    }

    fn copy_key(&self) -> (copy: Self) {
        self.clone()
    }
}

/// Behind a separator the last name begins where it does without what is in front.
proof fn lemma_name_start_behind(front: Seq<u8>, rest: Seq<u8>)
    requires
        front.len() > 0,
        front.last() == SEPARATOR,
    ensures
        name_start(front + rest) == front.len() + name_start(rest),
        0 <= name_start(rest) <= rest.len(),
    decreases rest.len(),
{
    let whole = front + rest;
    if rest.len() == 0 {
        assert(whole =~= front);
    } else {
        assert(whole.last() == rest.last());
        assert(whole.drop_last() =~= front + rest.drop_last());
        lemma_name_start_behind(front, rest.drop_last());
    }
}

/// A separator at the end adds no name.
proof fn lemma_closed(path: Seq<u8>)
    requires
        path.len() > 0,
        path.last() == SEPARATOR,
    ensures
        names_of(path) == names_of(path.drop_last()),
{
    assert(path.take(path.len() - 1) =~= path.drop_last());
}

/// What stands behind two directories with the same names has the same names.
proof fn lemma_same_front(front: Seq<u8>, other: Seq<u8>, rest: Seq<u8>)
    requires
        front.len() > 0,
        front.last() == SEPARATOR,
        other.len() > 0,
        other.last() == SEPARATOR,
        names_of(front) == names_of(other),
    ensures
        names_of(front + rest) == names_of(other + rest),
    decreases rest.len(),
{
    lemma_name_start_behind(front, rest);
    lemma_name_start_behind(other, rest);
    let start = name_start(rest);
    assert((front + rest).skip(front.len() + start) =~= rest.skip(start));
    assert((other + rest).skip(other.len() + start) =~= rest.skip(start));
    if start == 0 {
        assert((front + rest).take(front.len() - 1) =~= front.drop_last());
        assert((other + rest).take(other.len() - 1) =~= other.drop_last());
        lemma_closed(front);
        lemma_closed(other);
    } else {
        assert((front + rest).take(front.len() + start - 1) =~= front + rest.take(start - 1));
        assert((other + rest).take(other.len() + start - 1) =~= other + rest.take(start - 1));
        lemma_same_front(front, other, rest.take(start - 1));
    }
}

/// The place that a path leads to does not depend on how often a separator is written,
/// nor on names that mean the directory that they stand in.
pub proof fn law_places_do_not_depend_on_the_spelling(directory: Seq<u8>, rest: Seq<u8>)
    requires
        directory.len() > 0,
    ensures
        place_of(directory + seq![SEPARATOR, SEPARATOR] + rest) == place_of(
            directory + seq![SEPARATOR] + rest,
        ),
        place_of(directory + seq![SEPARATOR, DOT, SEPARATOR] + rest) == place_of(
            directory + seq![SEPARATOR] + rest,
        ),
        place_of(directory + seq![SEPARATOR]) == place_of(directory),
{
    let once = directory + seq![SEPARATOR];
    let twice = directory + seq![SEPARATOR, SEPARATOR];
    let dot = once.push(DOT);
    let dotted = directory + seq![SEPARATOR, DOT, SEPARATOR];
    assert(once.drop_last() =~= directory);
    assert(twice.drop_last() =~= once);
    assert(dotted.drop_last() =~= dot);
    lemma_closed(once);
    lemma_closed(twice);
    lemma_closed(dotted);
    assert(dot.drop_last() =~= once);
    assert(once.last() == SEPARATOR && dot.last() == DOT);
    assert(name_start(dot) == name_start(once));
    assert(dot.skip(once.len() as int) =~= seq![DOT]);
    assert(dot.take(once.len() - 1) =~= directory);
    lemma_same_front(once, twice, rest);
    lemma_same_front(once, dotted, rest);
}

/// A path to a name in a directory leads to where the directory leads and then to the name.
/// A name alone leads to itself.
pub proof fn law_names_are_found_in_their_directory(directory: Seq<u8>, name: Seq<u8>)
    requires
        name.len() > 0,
        forall|i: int| 0 <= i < name.len() ==> #[trigger] name[i] != 47,
        name != seq![46u8],
    ensures
        place_of(name) == (PlaceView { rooted: false, names: seq![name] }),
        directory.len() > 0 ==> place_of(directory.push(47) + name) == (PlaceView {
            rooted: place_of(directory).rooted,
            names: place_of(directory).names.push(name),
        }),
        place_of(seq![47u8] + name) == (PlaceView { rooted: true, names: seq![name] }),
{
    lemma_plain_name(name);
    assert(name.skip(0) =~= name);
    let root = seq![47u8];
    assert(root.last() == SEPARATOR);
    lemma_name_start_behind(root, name);
    assert((root + name).skip(1) =~= name);
    assert((root + name).take(0) =~= Seq::<u8>::empty());
    assert(names_of(Seq::<u8>::empty()) =~= Seq::<Seq<u8>>::empty());
    assert(names_of(root + name) =~= seq![name]);
    if directory.len() > 0 {
        let front = directory.push(47);
        lemma_name_start_behind(front, name);
        assert((front + name).skip(front.len() as int) =~= name);
        assert((front + name).take(front.len() - 1) =~= directory);
        assert((front + name)[0] == directory[0]);
    }
}

/// The last name of a path without separators begins at its start.
pub proof fn lemma_plain_name(name: Seq<u8>)
    requires
        forall|i: int| 0 <= i < name.len() ==> #[trigger] name[i] != 47,
    ensures
        name_start(name) == 0,
    decreases name.len(),
{
    if name.len() > 0 {
        assert(name.last() == name[name.len() - 1]);
        assert forall|i: int| 0 <= i < name.drop_last().len() implies #[trigger] name.drop_last()[i]
            != 47 by {
            assert(name.drop_last()[i] == name[i]);
        }
        lemma_plain_name(name.drop_last());
    }
}

/// The last name of a path to a name in a directory is that name.
pub proof fn lemma_name_behind(front: Seq<u8>, name: Seq<u8>)
    requires
        front.len() > 0,
        front.last() == 47,
        forall|i: int| 0 <= i < name.len() ==> #[trigger] name[i] != 47,
    ensures
        name_start(front + name) == front.len(),
{
    lemma_plain_name(name);
    lemma_name_start_behind(front, name);
}

} // verus!
