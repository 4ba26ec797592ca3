//! Highlights and comments on the text of a document.
//!
//! Annotations get ascending identities, and each change is a revision of its own;
//! both are counted in 64 bits, and a set that has used one of them up refuses to
//! change. A comment may have any length here: what is limited is the file that the
//! annotations are kept in.

use crate::document::TextPosition;
use crate::text::same_text;
use vstd::prelude::*;

verus! {

/// An annotation, among those of its document.
#[derive(Clone, Copy, Debug, PartialEq, Eq, Hash, Structural)]
pub struct AnnotationId(pub u64);

/// The color of a highlight.
#[derive(Clone, Copy, Debug, PartialEq, Eq, Structural)]
pub enum HighlightColor {
    Yellow,
    Green,
    Blue,
    Pink,
    Purple,
}

/// Why annotations were refused.
#[derive(Clone, Copy, Debug, PartialEq, Eq, Structural)]
pub enum AnnotationError {
    /// The end stands before the start.
    ReversedTextRange,
    /// Two annotations have this identity.
    DuplicateAnnotationId(AnnotationId),
    /// The annotation was changed before it was made, or after the latest
    /// revision.
    InvalidAnnotationRevision { id: AnnotationId },
    /// There is no next revision.
    RevisionsExhausted,
    /// There is no next identity.
    IdsExhausted,
}

impl AnnotationError {
    /// The words of [`message`](Self::message).
    pub open spec fn message_text(self) -> Seq<char> {
        match self {
            AnnotationError::ReversedTextRange => "the text range is reversed"@,
            AnnotationError::DuplicateAnnotationId(id) => "annotation "@
                + crate::text::decimal_text(id.0 as nat) + " occurs twice"@,
            AnnotationError::InvalidAnnotationRevision { id } => "annotation "@
                + crate::text::decimal_text(id.0 as nat) + " has an invalid revision"@,
            AnnotationError::RevisionsExhausted => "annotation revisions are exhausted"@,
            AnnotationError::IdsExhausted => "annotation identities are exhausted"@,
        }
    }

    /// The error in words.
    pub fn message(self) -> (text: String)
        ensures
            text@ == self.message_text(),
    {
        match self {
            AnnotationError::ReversedTextRange => "the text range is reversed".to_owned(),
            AnnotationError::DuplicateAnnotationId(id) => crate::text::join3(
                "annotation ",
                crate::text::decimal(id.0).as_str(),
                " occurs twice",
            ),
            AnnotationError::InvalidAnnotationRevision { id } => crate::text::join3(
                "annotation ",
                crate::text::decimal(id.0).as_str(),
                " has an invalid revision",
            ),
            AnnotationError::RevisionsExhausted => "annotation revisions are exhausted".to_owned(),
            AnnotationError::IdsExhausted => "annotation identities are exhausted".to_owned(),
        }
    }
}

/// The first position does not stand after the second.
pub open spec fn not_after(a: TextPosition, b: TextPosition) -> bool {
    a.page < b.page || (a.page == b.page && a.index <= b.index)
}

fn is_not_after(a: TextPosition, b: TextPosition) -> (holds: bool)
    ensures
        holds == not_after(a, b),
{
    a.page < b.page || (a.page == b.page && a.index <= b.index)
}

/// A stretch of text.
#[derive(Clone, Copy, Debug, PartialEq, Eq, Structural)]
pub struct TextRange {
    start: TextPosition,
    end: TextPosition,
}

impl TextRange {
    /// Where it starts.
    pub closed spec fn spec_start(self) -> TextPosition {
        self.start
    }

    /// Where it ends.
    pub closed spec fn spec_end(self) -> TextPosition {
        self.end
    }

    /// The stretch between two positions, whichever comes first.
    pub fn new(a: TextPosition, b: TextPosition) -> (range: TextRange)
        ensures
            range.spec_start() == if not_after(a, b) {
                a
            } else {
                b
            },
            range.spec_end() == if not_after(a, b) {
                b
            } else {
                a
            },
    {
        if is_not_after(a, b) {
            TextRange { start: a, end: b }
        } else {
            TextRange { start: b, end: a }
        }
    }

    /// The stretch from a start to an end that does not stand before it.
    pub fn restore(start: TextPosition, end: TextPosition) -> (range: Result<
        TextRange,
        AnnotationError,
    >)
        ensures
            match range {
                Ok(range) => not_after(start, end) && range.spec_start() == start
                    && range.spec_end() == end,
                Err(error) => !not_after(start, end) && error == AnnotationError::ReversedTextRange,
            },
    {
        if is_not_after(start, end) {
            Ok(TextRange { start, end })
        } else {
            Err(AnnotationError::ReversedTextRange)
        }
    }

    /// Where it starts.
    pub fn start(self) -> (start: TextPosition)
        ensures
            start == self.spec_start(),
    {
        self.start
    }

    /// Where it ends.
    pub fn end(self) -> (end: TextPosition)
        ensures
            end == self.spec_end(),
    {
        self.end
    }
}

/// Ranges with the same ends are the same.
pub proof fn lemma_range_is_its_ends(a: TextRange, b: TextRange)
    requires
        a.spec_start() == b.spec_start(),
        a.spec_end() == b.spec_end(),
    ensures
        a == b,
{
}

/// A highlight, a comment, or both.
#[derive(Clone, Debug, PartialEq, Eq)]
pub struct Annotation {
    pub id: AnnotationId,
    pub range: TextRange,
    pub highlight: Option<HighlightColor>,
    pub comment_markdown: Option<String>,
    /// The revision that it came with.
    pub created_revision: u64,
    /// The revision that changed it last.
    pub updated_revision: u64,
}

/// An [`Annotation`] with its comment as a sequence of characters.
pub struct AnnotationView {
    pub id: AnnotationId,
    pub range: TextRange,
    pub highlight: Option<HighlightColor>,
    pub comment_markdown: Option<Seq<char>>,
    pub created_revision: u64,
    pub updated_revision: u64,
}

/// A text that may be missing, as a sequence of characters.
pub open spec fn optional_text(text: Option<String>) -> Option<Seq<char>> {
    match text {
        Some(text) => Some(text@),
        None => None,
    }
}

/// A copy of a text that may be missing.
pub fn copy_optional_text(text: &Option<String>) -> (copy: Option<String>)
    ensures
        optional_text(copy) == optional_text(*text),
{
    match text {
        Some(text) => Some(text.as_str().to_owned()),
        None => None,
    }
}

impl View for Annotation {
    type V = AnnotationView;

    open spec fn view(&self) -> AnnotationView {
        AnnotationView {
            id: self.id,
            range: self.range,
            highlight: self.highlight,
            comment_markdown: optional_text(self.comment_markdown),
            created_revision: self.created_revision,
            updated_revision: self.updated_revision,
        }
    }
}

impl Annotation {
    /// An annotation that says the same.
    pub fn copy(&self) -> (copy: Annotation)
        ensures
            copy@ == self@,
    {
        Annotation {
            id: self.id,
            range: self.range,
            highlight: self.highlight,
            comment_markdown: copy_optional_text(&self.comment_markdown),
            created_revision: self.created_revision,
            updated_revision: self.updated_revision,
        }
    }

    /// Whether two annotations say the same.
    pub fn same(&self, other: &Annotation) -> (same: bool)
        ensures
            same == (self@ == other@),
    {
        let same_comment = match (&self.comment_markdown, &other.comment_markdown) {
            (Some(a), Some(b)) => same_text(a.as_str(), b.as_str()),
            (None, None) => true,
            _ => false,
        };
        let same_highlight = match (self.highlight, other.highlight) {
            (Some(a), Some(b)) => a == b,
            (None, None) => true,
            _ => false,
        };
        self.id == other.id && self.range == other.range && same_highlight && same_comment
            && self.created_revision == other.created_revision && self.updated_revision
            == other.updated_revision
    }
}

/// Annotations as they are seen.
pub open spec fn views(annotations: Seq<Annotation>) -> Seq<AnnotationView> {
    annotations.map(|i: int, annotation: Annotation| annotation@)
}

/// The annotations of a document at one revision.
#[derive(Clone, Debug, PartialEq, Eq)]
pub struct AnnotationSet {
    page_count: usize,
    revision: u64,
    annotations: Vec<Annotation>,
}

/// An [`AnnotationSet`] as it is seen.
#[verifier::ext_equal]
pub struct AnnotationSetView {
    pub page_count: usize,
    pub revision: u64,
    pub annotations: Seq<AnnotationView>,
}

/// An annotation before this one has the same identity.
pub open spec fn id_used(annotations: Seq<AnnotationView>, at: int, id: AnnotationId) -> bool {
    exists|j: int| 0 <= j < at && (#[trigger] annotations[j]).id == id
}

/// What is wrong with one annotation, given those before it.
pub open spec fn annotation_error(
    annotations: Seq<AnnotationView>,
    at: int,
    revision: u64,
) -> Option<AnnotationError> {
    let annotation = annotations[at];
    if id_used(annotations, at, annotation.id) {
        Some(AnnotationError::DuplicateAnnotationId(annotation.id))
    } else if !(annotation.created_revision <= annotation.updated_revision <= revision) {
        Some(AnnotationError::InvalidAnnotationRevision { id: annotation.id })
    } else {
        None
    }
}

/// The first fault among annotations from one on.
pub open spec fn annotations_error(
    annotations: Seq<AnnotationView>,
    from: int,
    revision: u64,
) -> Option<AnnotationError>
    decreases annotations.len() - from,
{
    if from < 0 || from >= annotations.len() {
        None
    } else if annotation_error(annotations, from, revision) is Some {
        annotation_error(annotations, from, revision)
    } else {
        annotations_error(annotations, from + 1, revision)
    }
}

impl AnnotationSetView {
    /// The first fault.
    pub open spec fn error(self) -> Option<AnnotationError> {
        annotations_error(self.annotations, 0, self.revision)
    }

    /// What a document has before anything was annotated.
    pub open spec fn empty(page_count: usize) -> AnnotationSetView {
        AnnotationSetView { page_count, revision: 0, annotations: Seq::empty() }
    }
}

/// The greatest identity, or zero.
pub open spec fn greatest_id(annotations: Seq<AnnotationView>) -> u64
    decreases annotations.len(),
{
    if annotations.len() == 0 {
        0
    } else {
        let before = greatest_id(annotations.drop_last());
        if annotations.last().id.0 > before {
            annotations.last().id.0
        } else {
            before
        }
    }
}

proof fn lemma_ids_are_bounded(annotations: Seq<AnnotationView>, at: int)
    requires
        0 <= at < annotations.len(),
    ensures
        annotations[at].id.0 <= greatest_id(annotations),
    decreases annotations.len(),
{
    if at < annotations.len() - 1 {
        lemma_ids_are_bounded(annotations.drop_last(), at);
    }
}

/// A set without a fault has none from any annotation on.
proof fn lemma_annotation_is_sound(
    annotations: Seq<AnnotationView>,
    from: int,
    at: int,
    revision: u64,
)
    requires
        0 <= from <= at < annotations.len(),
        annotations_error(annotations, from, revision) is None,
    ensures
        annotation_error(annotations, at, revision) is None,
    decreases at - from,
{
    if from < at {
        lemma_annotation_is_sound(annotations, from + 1, at, revision);
    }
}

proof fn lemma_sound_annotations_make_a_sound_set(
    annotations: Seq<AnnotationView>,
    from: int,
    revision: u64,
)
    requires
        0 <= from,
        forall|at: int|
            from <= at < annotations.len() ==> #[trigger] annotation_error(
                annotations,
                at,
                revision,
            ) is None,
    ensures
        annotations_error(annotations, from, revision) is None,
    decreases annotations.len() - from,
{
    if from < annotations.len() {
        assert(annotation_error(annotations, from, revision) is None);
        lemma_sound_annotations_make_a_sound_set(annotations, from + 1, revision);
    }
}

impl View for AnnotationSet {
    type V = AnnotationSetView;

    closed spec fn view(&self) -> AnnotationSetView {
        AnnotationSetView {
            page_count: self.page_count,
            revision: self.revision,
            annotations: views(self.annotations@),
        }
    }
}

impl AnnotationSet {
    /// No annotations.
    pub fn new(page_count: usize) -> (set: AnnotationSet)
        ensures
            set@ == AnnotationSetView::empty(page_count),
            set@.error() is None,
    {
        let set = AnnotationSet { page_count, revision: 0, annotations: Vec::new() };
        assert(set@.annotations =~= Seq::empty());
        set
    }

    /// How many pages the document has.
    pub fn page_count(&self) -> (page_count: usize)
        ensures
            page_count == self@.page_count,
    {
        self.page_count
    }

    /// How many changes there were.
    pub fn revision(&self) -> (revision: u64)
        ensures
            revision == self@.revision,
    {
        self.revision
    }

    /// The annotations in the order in which they came.
    pub fn annotations(&self) -> (annotations: &Vec<Annotation>)
        ensures
            views(annotations@) == self@.annotations,
    {
        &self.annotations
    }

    /// A set that says the same.
    pub fn copy(&self) -> (copy: AnnotationSet)
        ensures
            copy@ == self@,
    {
        let mut annotations: Vec<Annotation> = Vec::new();
        let mut i: usize = 0;
        while i < self.annotations.len()
            invariant
                i <= self.annotations@.len(),
                annotations@.len() == i,
                forall|j: int| 0 <= j < i ==> (#[trigger] annotations@[j])@ == self.annotations@[j]@,
            decreases self.annotations@.len() - i,
        {
            annotations.push(self.annotations[i].copy());
            i += 1;
        }
        let copy = AnnotationSet {
            page_count: self.page_count,
            revision: self.revision,
            annotations,
        };
        assert(copy@.annotations =~= self@.annotations);
        copy
    }

    /// Whether two sets say the same.
    pub fn same(&self, other: &AnnotationSet) -> (same: bool)
        ensures
            same == (self@ == other@),
    {
        if self.page_count != other.page_count || self.revision != other.revision
            || self.annotations.len() != other.annotations.len() {
            assert(self@.annotations.len() == self.annotations@.len());
            assert(other@.annotations.len() == other.annotations@.len());
            return false;
        }
        let mut i: usize = 0;
        while i < self.annotations.len()
            invariant
                i <= self.annotations@.len(),
                self.annotations@.len() == other.annotations@.len(),
                forall|j: int|
                    0 <= j < i ==> (#[trigger] self.annotations@[j])@ == other.annotations@[j]@,
            decreases self.annotations@.len() - i,
        {
            if !self.annotations[i].same(&other.annotations[i]) {
                assert(self@.annotations[i as int] != other@.annotations[i as int]);
                return false;
            }
            i += 1;
        }
        assert(self@.annotations =~= other@.annotations);
        true
    }

    fn first_fault(annotations: &Vec<Annotation>, revision: u64) -> (checked: Result<
        (),
        AnnotationError,
    >)
        ensures
            match annotations_error(views(annotations@), 0, revision) {
                Some(error) => checked == Err::<(), AnnotationError>(error),
                None => checked is Ok,
            },
    {
        let ghost all = views(annotations@);
        let mut at: usize = 0;
        while at < annotations.len()
            invariant
                at <= annotations@.len(),
                all == views(annotations@),
                annotations_error(all, 0, revision) == annotations_error(
                    all,
                    at as int,
                    revision,
                ),
            decreases annotations@.len() - at,
        {
            let annotation = &annotations[at];
            let mut j: usize = 0;
            while j < at
                invariant
                    j <= at < annotations@.len(),
                    all == views(annotations@),
                    *annotation == annotations@[at as int],
                    forall|k: int| 0 <= k < j ==> (#[trigger] all[k]).id != annotation.id,
                    annotations_error(all, 0, revision) == annotations_error(
                        all,
                        at as int,
                        revision,
                    ),
                decreases at - j,
            {
                if annotations[j].id == annotation.id {
                    assert(all[j as int].id == annotation.id);
                    return Err(AnnotationError::DuplicateAnnotationId(annotation.id));
                }
                j += 1;
            }
            if annotation.created_revision > annotation.updated_revision
                || annotation.updated_revision > revision {
                return Err(AnnotationError::InvalidAnnotationRevision { id: annotation.id });
            }
            at += 1;
        }
        Ok(())
    }

    /// Checks identities and revisions.
    pub fn validate(&self) -> (checked: Result<(), AnnotationError>)
        ensures
            match self@.error() {
                Some(error) => checked == Err::<(), AnnotationError>(error),
                None => checked is Ok,
            },
    {
        AnnotationSet::first_fault(&self.annotations, self.revision)
    }

    /// Annotations that were kept somewhere, if they are sound.
    pub fn restore(page_count: usize, revision: u64, annotations: Vec<Annotation>) -> (restored:
        Result<AnnotationSet, AnnotationError>)
        ensures
            match annotations_error(views(annotations@), 0, revision) {
                Some(error) => restored == Err::<AnnotationSet, AnnotationError>(error),
                None => restored matches Ok(set) && set@ == (AnnotationSetView {
                    page_count,
                    revision,
                    annotations: views(annotations@),
                }),
            },
    {
        match AnnotationSet::first_fault(&annotations, revision) {
            Err(error) => Err(error),
            Ok(()) => Ok(AnnotationSet { page_count, revision, annotations }),
        }
    }

    /// Adds an annotation at the next revision, under the identity after the
    /// greatest.
    pub fn add(
        &mut self,
        range: TextRange,
        highlight: Option<HighlightColor>,
        comment_markdown: Option<String>,
    ) -> (added: Result<AnnotationId, AnnotationError>)
        ensures
            match added {
                Ok(id) => {
                    let revision = (old(self)@.revision + 1) as u64;
                    &&& old(self)@.revision < u64::MAX
                    &&& id.0 == greatest_id(old(self)@.annotations) + 1
                    &&& final(self)@ == (AnnotationSetView {
                        page_count: old(self)@.page_count,
                        revision,
                        annotations: old(self)@.annotations.push(
                            AnnotationView {
                                id,
                                range,
                                highlight,
                                comment_markdown: optional_text(comment_markdown),
                                created_revision: revision,
                                updated_revision: revision,
                            },
                        ),
                    })
                    &&& old(self)@.error() is None ==> final(self)@.error() is None
                },
                Err(error) => final(self)@ == old(self)@ && if old(self)@.revision == u64::MAX {
                    error == AnnotationError::RevisionsExhausted
                } else {
                    greatest_id(old(self)@.annotations) == u64::MAX && error
                        == AnnotationError::IdsExhausted
                },
            },
    {
        if self.revision == u64::MAX {
            return Err(AnnotationError::RevisionsExhausted);
        }
        let ghost all = views(self.annotations@);
        let mut greatest: u64 = 0;
        let mut i: usize = 0;
        assert(all.take(0) =~= Seq::empty());
        while i < self.annotations.len()
            invariant
                i <= self.annotations@.len(),
                all == views(self.annotations@),
                greatest == greatest_id(all.take(i as int)),
            decreases self.annotations@.len() - i,
        {
            assert(all.take(i + 1).drop_last() =~= all.take(i as int));
            if self.annotations[i].id.0 > greatest {
                greatest = self.annotations[i].id.0;
            }
            i += 1;
        }
        assert(all.take(all.len() as int) =~= all);
        if greatest == u64::MAX {
            return Err(AnnotationError::IdsExhausted);
        }
        let id = AnnotationId(greatest + 1);
        let revision: u64 = self.revision + 1;
        self.annotations.push(
            Annotation {
                id,
                range,
                highlight,
                comment_markdown,
                created_revision: revision,
                updated_revision: revision,
            },
        );
        proof {
            let grown = views(self.annotations@);
            assert(grown =~= all.push(grown.last()));
            if annotations_error(all, 0, self.revision) is None {
                assert forall|at: int| 0 <= at < grown.len() implies #[trigger] annotation_error(
                    grown,
                    at,
                    revision,
                ) is None by {
                    if at < all.len() {
                        lemma_annotation_is_sound(all, 0, at, self.revision);
                        assert(grown[at] == all[at]);
                        assert(!id_used(all, at, all[at].id));
                        if id_used(grown, at, grown[at].id) {
                            let j = choose|j: int|
                                0 <= j < at && (#[trigger] grown[j]).id == grown[at].id;
                            assert(all[j].id == all[at].id);
                        }
                    } else if id_used(grown, at, id) {
                        let j = choose|j: int| 0 <= j < at && (#[trigger] grown[j]).id == id;
                        lemma_ids_are_bounded(all, j);
                        assert(grown[j] == all[j]);
                    }
                }
                lemma_sound_annotations_make_a_sound_set(grown, 0, revision);
            }
        }
        self.revision = revision;
        Ok(id)
    }
}

/// Positions are in the order of their pages, and on one page in that of their indices.
pub proof fn law_positions_are_in_reading_order(
    a: TextPosition,
    b: TextPosition,
    c: TextPosition,
)
    ensures
        not_after(a, b) || not_after(b, a),
        not_after(a, b) && not_after(b, a) ==> a == b,
        not_after(a, b) && not_after(b, c) ==> not_after(a, c),
        a.page < b.page ==> not_after(a, b) && !not_after(b, a),
        a.page == b.page ==> (not_after(a, b) <==> a.index <= b.index),
{
}

/// A stretch between two positions has them as its ends, whichever is given first, and does
/// not end before it starts. Such ends, and no others, can be restored.
pub proof fn law_ranges_have_their_ends(
    a: TextPosition,
    b: TextPosition,
    one: TextRange,
    other: TextRange,
    restored: Result<TextRange, AnnotationError>,
)
    requires
        call_ensures(TextRange::new, (a, b), one),
        call_ensures(TextRange::new, (b, a), other),
        call_ensures(TextRange::restore, (a, b), restored),
    ensures
        one == other,
        (one.spec_start() == a && one.spec_end() == b) || (one.spec_start() == b && one.spec_end()
            == a),
        one.spec_start().page <= one.spec_end().page,
        one.spec_start().page == one.spec_end().page ==> one.spec_start().index
            <= one.spec_end().index,
        restored is Ok <==> one.spec_start() == a && one.spec_end() == b,
        restored matches Ok(range) ==> range == one,
{
    lemma_range_is_its_ends(one, other);
    if let Ok(range) = restored {
        lemma_range_is_its_ends(range, one);
    }
}

proof fn lemma_no_fault_from(annotations: Seq<AnnotationView>, from: int, revision: u64)
    requires
        0 <= from,
    ensures
        annotations_error(annotations, from, revision) is None <==> forall|i: int|
            from <= i < annotations.len() ==> annotation_error(
                annotations,
                i,
                revision,
            ) is None && 0 <= (#[trigger] annotations[i]).id.0,
    decreases annotations.len() - from,
{
    if from < annotations.len() {
        lemma_no_fault_from(annotations, from + 1, revision);
        if forall|i: int|
            from <= i < annotations.len() ==> annotation_error(
                annotations,
                i,
                revision,
            ) is None && 0 <= (#[trigger] annotations[i]).id.0 {
            assert(annotations[from].id.0 >= 0);
        }
    }
}

/// Annotations are sound if and only if no two have the same identity, and each was made
/// before or when it was changed last, and not after the revision of the whole.
pub proof fn law_sound_annotations_are_distinct(set: AnnotationSetView)
    ensures
        set.error() is None <==> {
            &&& forall|i: int, j: int|
                0 <= i < j < set.annotations.len() ==> (#[trigger] set.annotations[i]).id != (
                #[trigger] set.annotations[j]).id
            &&& forall|i: int|
                0 <= i < set.annotations.len() ==> (
                #[trigger] set.annotations[i]).created_revision
                    <= set.annotations[i].updated_revision <= set.revision
        },
{
    lemma_no_fault_from(set.annotations, 0, set.revision);
    let all = set.annotations;
    if set.error() is None {
        assert forall|i: int, j: int| 0 <= i < j < all.len() implies (#[trigger] all[i]).id != (
        #[trigger] all[j]).id by {
            assert(annotation_error(all, j, set.revision) is None);
            assert(!id_used(all, j, all[j].id));
        }
        assert forall|i: int| 0 <= i < all.len() implies (#[trigger] all[i]).created_revision
            <= all[i].updated_revision <= set.revision by {
            assert(annotation_error(all, i, set.revision) is None);
        }
    }
    if (forall|i: int, j: int|
        0 <= i < j < all.len() ==> (#[trigger] all[i]).id != (#[trigger] all[j]).id) && (forall|
        i: int,
    |
        0 <= i < all.len() ==> (#[trigger] all[i]).created_revision <= all[i].updated_revision
            <= set.revision) {
        assert forall|i: int| 0 <= i < all.len() implies annotation_error(
            all,
            i,
            set.revision,
        ) is None && 0 <= (#[trigger] all[i]).id.0 by {
            if id_used(all, i, all[i].id) {
                let j = choose|j: int| 0 <= j < i && (#[trigger] all[j]).id == all[i].id;
                assert(all[j].id != all[i].id);
            }
        }
    }
}

/// The greatest identity is that of an annotation, or zero where there is none, and no
/// annotation has a greater one.
pub proof fn law_the_greatest_identity_is_the_greatest(annotations: Seq<AnnotationView>, i: int)
    ensures
        0 <= i < annotations.len() ==> annotations[i].id.0 <= greatest_id(annotations),
        greatest_id(annotations) != 0 ==> exists|j: int|
            0 <= j < annotations.len() && (#[trigger] annotations[j]).id.0 == greatest_id(
                annotations,
            ),
    decreases annotations.len(),
{
    if annotations.len() > 0 {
        let shorter = annotations.drop_last();
        law_the_greatest_identity_is_the_greatest(shorter, i);
        if 0 <= i < shorter.len() {
            assert(shorter[i] == annotations[i]);
        }
        if greatest_id(annotations) == greatest_id(shorter) && greatest_id(shorter) != 0 {
            let j = choose|j: int|
                0 <= j < shorter.len() && (#[trigger] shorter[j]).id.0 == greatest_id(shorter);
            assert(annotations[j].id.0 == greatest_id(annotations));
        } else {
            assert(annotations[annotations.len() - 1] == annotations.last());
        }
    }
}

/// An added annotation is behind all others, says what was given at the next revision, and
/// has an identity that none of the others has. The others stay as they were.
pub proof fn law_added_annotations_are_new(
    before: AnnotationSet,
    range: TextRange,
    highlight: Option<HighlightColor>,
    comment: Option<String>,
    i: int,
)
    requires
        0 <= i < before@.annotations.len(),
    ensures
        forall|set: &mut AnnotationSet, added: Result<AnnotationId, AnnotationError>| #[trigger]
            call_ensures(AnnotationSet::add, (set, range, highlight, comment), added) && *set
                == before ==> {
                let after = final(set)@;
                &&& added is Err ==> after == before@
                &&& added matches Ok(id) ==> {
                    &&& id != before@.annotations[i].id
                    &&& after.annotations[i] == before@.annotations[i]
                    &&& after.annotations.len() == before@.annotations.len() + 1
                    &&& after.revision == before@.revision + 1
                    &&& after.page_count == before@.page_count
                    &&& after.annotations.last().id == id
                    &&& after.annotations.last().range == range
                    &&& after.annotations.last().highlight == highlight
                    &&& after.annotations.last().comment_markdown == optional_text(comment)
                    &&& after.annotations.last().created_revision == after.revision
                    &&& after.annotations.last().updated_revision == after.revision
                }
            },
{
    law_the_greatest_identity_is_the_greatest(before@.annotations, i);
}

} // verus!
