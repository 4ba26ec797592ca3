//! Annotations kept in memory.

use crate::keyed::{KeyedList, ListKey};
use crate::store::annotations::{AnnotationSet, AnnotationSetView};
use crate::store::error::{SaveReceipt, StoreConflict, StoreError, StoreErrorView};
use crate::store::identity::{DocumentIdentity, DocumentKey, IdentityView};
use crate::store::source_path::{PlaceView, SourcePath};
use vstd::prelude::*;
use vstd::rwlock::RwLock;

verus! {

/// A place that keeps annotations.
pub trait AnnotationStore {
    /// The annotations of a document. One that was never saved has none, at
    /// revision zero.
    fn load(&self, document: &DocumentKey) -> (loaded: Result<AnnotationSet, StoreError>);

    /// Saves annotations, if the document and the revision that is kept are
    /// those that the caller has seen.
    fn compare_and_save(
        &self,
        document: &DocumentKey,
        expected_revision: u64,
        annotations: &AnnotationSet,
    ) -> (saved: Result<SaveReceipt, StoreError>);
}

/// What is kept of one document.
#[derive(Debug)]
pub struct MemoryEntry {
    pub identity: DocumentIdentity,
    pub annotations: AnnotationSet,
}

/// A [`MemoryEntry`] as it is seen.
pub struct EntryView {
    pub identity: IdentityView,
    pub annotations: AnnotationSetView,
}

impl View for MemoryEntry {
    type V = EntryView;

    open spec fn view(&self) -> EntryView {
        EntryView { identity: self.identity@, annotations: self.annotations@ }
    }
}

/// What is kept, by the place of the document.
#[derive(Debug)]
pub struct MemoryEntries {
    entries: KeyedList<SourcePath, MemoryEntry>,
}

/// The fault of a load.
pub open spec fn load_error(
    entries: Map<PlaceView, EntryView>,
    place: PlaceView,
    identity: IdentityView,
) -> Option<StoreErrorView> {
    if entries.contains_key(place) && entries[place].identity != identity {
        Some(
            StoreErrorView::DocumentIdentityMismatch {
                expected: identity,
                found: entries[place].identity,
            },
        )
    } else {
        None
    }
}

/// What a load without a fault gives.
pub open spec fn kept_annotations(
    entries: Map<PlaceView, EntryView>,
    place: PlaceView,
    identity: IdentityView,
) -> AnnotationSetView {
    if entries.contains_key(place) {
        entries[place].annotations
    } else {
        AnnotationSetView::empty(identity.page_count)
    }
}

/// The revision that is kept of a document.
pub open spec fn kept_revision(entries: Map<PlaceView, EntryView>, place: PlaceView) -> u64 {
    if entries.contains_key(place) {
        entries[place].annotations.revision
    } else {
        0
    }
}

/// The fault of a save: what is wrong with the annotations themselves, then
/// with the document, then with the revision.
pub open spec fn save_error(
    entries: Map<PlaceView, EntryView>,
    place: PlaceView,
    identity: IdentityView,
    expected_revision: u64,
    annotations: AnnotationSetView,
) -> Option<StoreErrorView> {
    let current = kept_revision(entries, place);
    if annotations.page_count != identity.page_count {
        Some(
            StoreErrorView::PageCountMismatch {
                identity: identity.page_count,
                annotations: annotations.page_count,
            },
        )
    } else if annotations.error() is Some {
        Some(StoreErrorView::Annotation(annotations.error()->Some_0))
    } else if load_error(entries, place, identity) is Some {
        load_error(entries, place, identity)
    } else if current != expected_revision {
        Some(StoreErrorView::RevisionMismatch { expected: expected_revision, found: current })
    } else if annotations.revision < current {
        Some(StoreErrorView::RevisionRegression { current, attempted: annotations.revision })
    } else if annotations.revision == current && entries.contains_key(place)
        && entries[place].annotations != annotations {
        Some(StoreErrorView::RevisionNotAdvanced { current, attempted: annotations.revision })
    } else {
        None
    }
}

impl View for MemoryEntries {
    type V = Map<PlaceView, EntryView>;

    closed spec fn view(&self) -> Map<PlaceView, EntryView> {
        self.entries@.map_values(|entry: MemoryEntry| entry@)
    }
}

impl MemoryEntries {
    /// No place occurs twice.
    pub closed spec fn wf(&self) -> bool {
        self.entries.wf()
    }

    /// Nothing is kept.
    pub fn new() -> (entries: MemoryEntries)
        ensures
            entries.wf(),
            entries@ == Map::<PlaceView, EntryView>::empty(),
    {
        let entries = MemoryEntries { entries: KeyedList::new() };
        assert(entries@ =~= Map::<PlaceView, EntryView>::empty());
        entries
    }

    /// Forgets a document. Returns whether anything was kept of it.
    pub fn remove(&mut self, source_path: &Vec<u8>) -> (removed: bool)
        requires
            old(self).wf(),
        ensures
            final(self).wf(),
            removed == old(self)@.contains_key(crate::store::source_path::place_of(source_path@)),
            final(self)@ == old(self)@.remove(crate::store::source_path::place_of(source_path@)),
    {
        let place = SourcePath::new(source_path.copy_key());
        let removed = self.entries.remove(&place).is_some();
        assert(self@ =~= old(self)@.remove(place@));
        removed
    }

    /// The annotations of a document.
    pub fn load(&self, document: &DocumentKey) -> (loaded: Result<AnnotationSet, StoreError>)
        requires
            self.wf(),
        ensures
            crate::store::error::settles_to(
                loaded,
                load_error(self@, document.spec_place(), document.spec_identity()),
            ),
            loaded matches Ok(loaded) ==> loaded@ == kept_annotations(
                self@,
                document.spec_place(),
                document.spec_identity(),
            ),
    {
        match self.entries.get(document.place()) {
            None => Ok(AnnotationSet::new(document.identity().page_count())),
            Some(entry) => {
                assert(self@[document.spec_place()] == entry@);
                if !entry.identity.same(document.identity()) {
                    return Err(
                        StoreError::Conflict(
                            StoreConflict::DocumentIdentityMismatch {
                                expected: document.identity().copy(),
                                found: entry.identity.copy(),
                            },
                        ),
                    );
                }
                Ok(entry.annotations.copy())
            },
        }
    }

    /// Saves annotations.
    pub fn compare_and_save(
        &mut self,
        document: &DocumentKey,
        expected_revision: u64,
        annotations: &AnnotationSet,
    ) -> (saved: Result<SaveReceipt, StoreError>)
        requires
            old(self).wf(),
        ensures
            final(self).wf(),
            crate::store::error::settles_to(
                saved,
                save_error(
                    old(self)@,
                    document.spec_place(),
                    document.spec_identity(),
                    expected_revision,
                    annotations@,
                ),
            ),
            match saved {
                Ok(receipt) => {
                    &&& receipt.previous_revision == kept_revision(
                        old(self)@,
                        document.spec_place(),
                    )
                    &&& receipt.saved_revision == annotations@.revision
                    &&& final(self)@ == old(self)@.insert(
                        document.spec_place(),
                        EntryView {
                            identity: document.spec_identity(),
                            annotations: annotations@,
                        },
                    )
                },
                Err(_) => final(self)@ == old(self)@,
            },
    {
        if annotations.page_count() != document.identity().page_count() {
            return Err(
                StoreError::PageCountMismatch {
                    identity: document.identity().page_count(),
                    annotations: annotations.page_count(),
                },
            );
        }
        if let Err(error) = annotations.validate() {
            return Err(StoreError::Annotation(error));
        }
        let mut current: u64 = 0;
        let mut unchanged = true;
        if let Some(entry) = self.entries.get(document.place()) {
            assert(self@[document.spec_place()] == entry@);
            if !entry.identity.same(document.identity()) {
                return Err(
                    StoreError::Conflict(
                        StoreConflict::DocumentIdentityMismatch {
                            expected: document.identity().copy(),
                            found: entry.identity.copy(),
                        },
                    ),
                );
            }
            current = entry.annotations.revision();
            unchanged = entry.annotations.same(annotations);
        }
        if current != expected_revision {
            return Err(
                StoreError::Conflict(
                    StoreConflict::RevisionMismatch { expected: expected_revision, found: current },
                ),
            );
        }
        if annotations.revision() < current {
            return Err(
                StoreError::RevisionRegression { current, attempted: annotations.revision() },
            );
        }
        if annotations.revision() == current && !unchanged {
            return Err(
                StoreError::RevisionNotAdvanced { current, attempted: annotations.revision() },
            );
        }
        let entry = MemoryEntry {
            identity: document.identity().copy(),
            annotations: annotations.copy(),
        };
        self.entries.insert(document.place().copy_key(), entry);
        assert(self@ =~= old(self)@.insert(
            document.spec_place(),
            EntryView { identity: document.spec_identity(), annotations: annotations@ },
        ));
        Ok(
            SaveReceipt {
                previous_revision: current,
                saved_revision: annotations.revision(),
            },
        )
    }
}

/// What was saved is what the next load of the same document gives.
pub proof fn law_loads_give_back_what_was_saved(
    before: Map<PlaceView, EntryView>,
    after: Map<PlaceView, EntryView>,
    place: PlaceView,
    identity: IdentityView,
    expected_revision: u64,
    annotations: AnnotationSetView,
)
    requires
        save_error(before, place, identity, expected_revision, annotations) is None,
        after == before.insert(place, EntryView { identity, annotations }),
    ensures
        load_error(after, place, identity) is None,
        kept_annotations(after, place, identity) == annotations,
        kept_revision(after, place) == annotations.revision,
        annotations.revision >= kept_revision(before, place),
        forall|other: PlaceView|
            other != place ==> #[trigger] kept_revision(after, other) == kept_revision(
                before,
                other,
            ),
{
}

/// Once a save moved the revision on, a writer that still expects the old one
/// is refused with both revisions.
pub proof fn law_stale_writers_are_refused(
    before: Map<PlaceView, EntryView>,
    place: PlaceView,
    identity: IdentityView,
    expected_revision: u64,
    first: AnnotationSetView,
    second: AnnotationSetView,
)
    requires
        save_error(before, place, identity, expected_revision, first) is None,
        first.revision != expected_revision,
        second.page_count == identity.page_count,
        second.error() is None,
    ensures
        save_error(
            before.insert(place, EntryView { identity, annotations: first }),
            place,
            identity,
            expected_revision,
            second,
        ) == Some(
            StoreErrorView::RevisionMismatch { expected: expected_revision, found: first.revision },
        ),
{
}

/// What holds of the entries whenever nobody works on them.
pub struct EntriesAreSound;

impl vstd::rwlock::RwLockPredicate<MemoryEntries> for EntriesAreSound {
    open spec fn inv(self, entries: MemoryEntries) -> bool {
        entries.wf()
    }
}

/// Annotations kept in memory, for any number of holders.
pub struct MemoryAnnotationStore {
    entries: RwLock<MemoryEntries, EntriesAreSound>,
}

impl Default for MemoryAnnotationStore {
    fn default() -> (store: Self)
        ensures
            store.made_empty(),
    {
        MemoryAnnotationStore::new()
    }
}

impl MemoryAnnotationStore {
    /// What is kept was made empty.
    pub closed spec fn made_empty(&self) -> bool {
        exists|entries: MemoryEntries| #[trigger]
            crate::lock::was_made(self.entries, entries) && entries@ == Map::<
                PlaceView,
                EntryView,
            >::empty()
    }

    /// What is kept was found as it was before, and left as it is after.
    pub closed spec fn moved(
        &self,
        before: Map<PlaceView, EntryView>,
        after: Map<PlaceView, EntryView>,
    ) -> bool {
        exists|found: MemoryEntries, left: MemoryEntries| #[trigger]
            crate::lock::was_swapped(self.entries, found, left) && found@ == before && left@
                == after
    }

    /// A document was loaded from what was kept.
    pub open spec fn loaded_from(
        &self,
        kept: Map<PlaceView, EntryView>,
        document: &DocumentKey,
        loaded: Result<AnnotationSet, StoreError>,
    ) -> bool {
        &&& self.moved(kept, kept)
        &&& crate::store::error::settles_to(
            loaded,
            load_error(kept, document.spec_place(), document.spec_identity()),
        )
        &&& loaded matches Ok(loaded) ==> loaded@ == kept_annotations(
            kept,
            document.spec_place(),
            document.spec_identity(),
        )
    }

    /// A document was saved into what was kept.
    pub open spec fn saved_into(
        &self,
        kept: Map<PlaceView, EntryView>,
        document: &DocumentKey,
        expected_revision: u64,
        annotations: &AnnotationSet,
        saved: Result<SaveReceipt, StoreError>,
    ) -> bool {
        &&& crate::store::error::settles_to(
            saved,
            save_error(
                kept,
                document.spec_place(),
                document.spec_identity(),
                expected_revision,
                annotations@,
            ),
        )
        &&& match saved {
            Ok(receipt) => {
                &&& receipt.previous_revision == kept_revision(kept, document.spec_place())
                &&& receipt.saved_revision == annotations@.revision
                &&& self.moved(
                    kept,
                    kept.insert(
                        document.spec_place(),
                        EntryView {
                            identity: document.spec_identity(),
                            annotations: annotations@,
                        },
                    ),
                )
            },
            Err(_) => self.moved(kept, kept),
        }
    }

    /// Nothing is kept.
    pub fn new() -> (store: MemoryAnnotationStore)
        ensures
            store.made_empty(),
    {
        let entries = MemoryEntries::new();
        let ghost empty = entries;
        let store = MemoryAnnotationStore {
            entries: RwLock::new(entries, Ghost(EntriesAreSound)),
        };
        assert(crate::lock::was_made(store.entries, empty));
        store
    }

    /// Forgets a document. Returns whether anything was kept of it. What was
    /// kept depends on what other holders did before.
    pub fn remove(&self, source_path: &Vec<u8>) -> (removed: Result<bool, StoreError>)
        ensures
            exists|kept: Map<PlaceView, EntryView>| #[trigger]
                self.moved(kept, kept.remove(crate::store::source_path::place_of(source_path@))) && removed == Ok::<bool, StoreError>(
                    kept.contains_key(crate::store::source_path::place_of(source_path@)),
                ),
    {
        let (mut entries, handle) = self.entries.acquire_write();
        let ghost found = entries;
        assert(crate::lock::was_taken(self.entries, found, handle));
        let removed = entries.remove(source_path);
        let ghost left = entries;
        handle.release_write(entries);
        assert(crate::lock::was_swapped(self.entries, found, left));
        assert(self.moved(found@, found@.remove(crate::store::source_path::place_of(source_path@))));
        Ok(removed)
    }
}

impl AnnotationStore for MemoryAnnotationStore {
    fn load(&self, document: &DocumentKey) -> (loaded: Result<AnnotationSet, StoreError>)
        ensures
            exists|kept: Map<PlaceView, EntryView>| #[trigger]
                self.loaded_from(kept, document, loaded),
    {
        let (entries, handle) = self.entries.acquire_write();
        let ghost found = entries;
        assert(crate::lock::was_taken(self.entries, found, handle));
        let loaded = entries.load(document);
        handle.release_write(entries);
        assert(crate::lock::was_swapped(self.entries, found, found));
        assert(self.loaded_from(found@, document, loaded));
        loaded
    }

    fn compare_and_save(
        &self,
        document: &DocumentKey,
        expected_revision: u64,
        annotations: &AnnotationSet,
    ) -> (saved: Result<SaveReceipt, StoreError>)
        ensures
            exists|kept: Map<PlaceView, EntryView>| #[trigger]
                self.saved_into(kept, document, expected_revision, annotations, saved),
    {
        let (mut entries, handle) = self.entries.acquire_write();
        let ghost found = entries;
        assert(crate::lock::was_taken(self.entries, found, handle));
        let saved = entries.compare_and_save(document, expected_revision, annotations);
        let ghost left = entries;
        handle.release_write(entries);
        assert(crate::lock::was_swapped(self.entries, found, left));
        assert(self.saved_into(found@, document, expected_revision, annotations, saved));
        saved
    }
}

/// A document is loaded if and only if nothing is kept at its place, or what is kept is of
/// the same identity. What is kept is given as it is, and else nothing at revision zero.
pub proof fn law_loads_are_of_the_same_document(
    entries: Map<PlaceView, EntryView>,
    place: PlaceView,
    identity: IdentityView,
)
    ensures
        load_error(entries, place, identity) is None <==> (entries.contains_key(place)
            ==> entries[place].identity == identity),
        entries.contains_key(place) ==> kept_annotations(entries, place, identity)
            == entries[place].annotations && kept_revision(entries, place)
            == entries[place].annotations.revision,
        !entries.contains_key(place) ==> {
            let given = kept_annotations(entries, place, identity);
            &&& given.page_count == identity.page_count
            &&& given.revision == 0
            &&& given.annotations.len() == 0
            &&& kept_revision(entries, place) == 0
        },
{
}

/// A save is accepted if and only if the annotations are sound and of as many pages, the
/// document is the one that is kept, the caller has seen the revision that is kept, and the
/// annotations are at a later revision, or are the same at that one.
pub proof fn law_saves_are_accepted_from_the_latest_revision(
    entries: Map<PlaceView, EntryView>,
    place: PlaceView,
    identity: IdentityView,
    expected_revision: u64,
    annotations: AnnotationSetView,
)
    ensures
        save_error(entries, place, identity, expected_revision, annotations) is None <==> {
            &&& annotations.page_count == identity.page_count
            &&& annotations.error() is None
            &&& if entries.contains_key(place) {
                &&& entries[place].identity == identity
                &&& entries[place].annotations.revision == expected_revision
                &&& annotations.revision > expected_revision || annotations
                    == entries[place].annotations
            } else {
                expected_revision == 0
            }
        },
{
}

/// What is saved of a document is what is loaded of it next, and a save that is refused
/// changes nothing.
pub proof fn law_saved_annotations_are_loaded_again(
    before: MemoryEntries,
    later: MemoryEntries,
    document: DocumentKey,
    expected: u64,
    annotations: AnnotationSet,
    loaded: Result<AnnotationSet, StoreError>,
)
    requires
        call_ensures(MemoryEntries::load, (&later, &document), loaded),
    ensures
        forall|entries: &mut MemoryEntries, saved: Result<SaveReceipt, StoreError>| #[trigger]
            call_ensures(
                MemoryEntries::compare_and_save,
                (entries, &document, expected, &annotations),
                saved,
            ) && *entries == before && *final(entries) == later ==> {
                &&& saved is Err ==> later@ == before@
                &&& saved matches Ok(receipt) ==> {
                    &&& loaded matches Ok(found) && found@ == annotations@
                    &&& receipt.saved_revision == annotations@.revision
                    &&& receipt.previous_revision == expected
                }
            },
{
}

} // verus!
