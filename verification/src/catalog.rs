//! The records of the catalog: components grouped in collections, packages
//! that a backend reports, and the store of loaded collections.

use crate::text::{get_translatable, resolved, MarkupTranslatable, Translatable};
use std::sync::Arc;
use vstd::prelude::*;

verus! {

/// One describable piece of software within a collection.
pub struct Component {
    pub name: Translatable,
    pub summary: Option<Translatable>,
    pub description: Option<MarkupTranslatable>,
    /// The reference of its icon asset, where it has one.
    pub icon: Option<String>,
}

/// The components that one metadata source describes.
pub struct Collection {
    pub origin: Option<String>,
    pub components: Vec<Component>,
}

/// What is shown as the icon of an entry.
pub enum Icon {
    /// The generic icon, for an entry without an icon asset.
    Placeholder,
    /// The asset called `reference`, looked for under `origin` where the
    /// collection names one.
    Asset { origin: Option<String>, reference: String },
}

/// A unit that a backend reports as installed.
pub struct Package {
    pub id: String,
    pub name: String,
    pub version: String,
    pub summary: String,
    pub icon: Icon,
}

/// A loaded collection under its identifier.
pub struct StoreEntry {
    pub id: String,
    pub collection: Arc<Collection>,
}

/// What reading one collection file gave: its identifier, and the parsed
/// collection or why it could not be read or parsed.
pub struct ParsedFile {
    pub id: String,
    pub outcome: Result<Arc<Collection>, String>,
}

/// The loaded collections, in the order in which they were first inserted.
/// No identifier occurs twice.
pub struct MetadataStore {
    entries: Vec<StoreEntry>,
}

/// The name of `component` as shown for `locale`.
pub open spec fn name_text(component: &Component, locale: Seq<char>) -> Seq<char> {
    resolved(component.name@, locale)
}

/// The summary of `component` as shown for `locale`; empty where it has none.
pub open spec fn summary_text(component: &Component, locale: Seq<char>) -> Seq<char> {
    match component.summary {
        Some(summary) => resolved(summary@, locale),
        None => Seq::empty(),
    }
}

/// Whether no identifier occurs twice among `entries`.
pub open spec fn distinct_ids(entries: Seq<StoreEntry>) -> bool {
    forall|i: int, j: int|
        0 <= i < j < entries.len() ==> (#[trigger] entries[i]).id@ != (#[trigger] entries[j]).id@
}

/// Whether none of `entries` has the identifier `id`.
pub open spec fn lacks_id(entries: Seq<StoreEntry>, id: Seq<char>) -> bool {
    forall|i: int| 0 <= i < entries.len() ==> (#[trigger] entries[i]).id@ != id
}

/// Whether `entry` holds the collection that `file` parsed to, under the
/// file's identifier.
pub open spec fn kept_as(file: ParsedFile, entry: StoreEntry) -> bool {
    file.id@ == entry.id@ && file.outcome == Ok::<Arc<Collection>, String>(entry.collection)
}

/// Whether `entry` holds what one of the first `n` files parsed to.
pub open spec fn from_file(files: Seq<ParsedFile>, n: int, entry: StoreEntry) -> bool {
    exists|i: int| 0 <= i < n && kept_as(#[trigger] files[i], entry)
}

/// Whether one of `entries` holds what `file` parsed to.
pub open spec fn holds(entries: Seq<StoreEntry>, file: ParsedFile) -> bool {
    exists|k: int| 0 <= k < entries.len() && kept_as(file, #[trigger] entries[k])
}

/// Whether file `i` parsed, and none of the files after it and before file
/// `n` parsed under the same identifier.
pub open spec fn stays(files: Seq<ParsedFile>, i: int, n: int) -> bool {
    &&& files[i].outcome is Ok
    &&& forall|j: int|
        i < j < n && (#[trigger] files[j]).outcome is Ok ==> files[j].id@ != files[i].id@
}

/// Whether `entries` are what loading the first `n` of `files` leaves: each
/// entry holds what one of those files parsed to, and each of those files
/// that parsed, and was not followed by another of its identifier that
/// parsed, is held.
pub open spec fn loaded(files: Seq<ParsedFile>, n: int, entries: Seq<StoreEntry>) -> bool {
    &&& forall|k: int| 0 <= k < entries.len() ==> from_file(files, n, #[trigger] entries[k])
    &&& forall|i: int| 0 <= i < n && #[trigger] stays(files, i, n) ==> holds(entries, files[i])
}

/// Calls `Arc::clone`. Trusted: the new handle shares the collection that
/// `collection` points to, so both hold the same value.
#[verifier::external_body]
pub(crate) fn share(collection: &Arc<Collection>) -> (r: Arc<Collection>)
    ensures
        r == *collection,
{
    Arc::clone(collection)
}

/// The icon of a component with the icon reference `reference` in a
/// collection of origin `origin`: the asset, or the placeholder where the
/// component has no reference.
pub open spec fn icon_of(origin: Option<String>, reference: Option<String>) -> Icon {
    match reference {
        Some(reference) => Icon::Asset { origin: origin, reference: reference },
        None => Icon::Placeholder,
    }
}

/// A copy of an optional text.
pub fn copy_text(text: &Option<String>) -> (r: Option<String>)
    ensures
        r == *text,
{
    match text {
        Some(text) => Some(text.clone()),
        None => None,
    }
}

impl Icon {
    /// A copy of the icon.
    pub fn duplicate(&self) -> (r: Icon)
        ensures
            r == *self,
    {
        match self {
            Icon::Placeholder => Icon::Placeholder,
            Icon::Asset { origin, reference } => Icon::Asset {
                origin: copy_text(origin),
                reference: reference.clone(),
            },
        }
    }
}

impl Package {
    /// A copy of the package.
    pub fn duplicate(&self) -> (r: Package)
        ensures
            r == *self,
    {
        Package {
            id: self.id.clone(),
            name: self.name.clone(),
            version: self.version.clone(),
            summary: self.summary.clone(),
            icon: self.icon.duplicate(),
        }
    }
}

impl Component {
    /// The name to show for `locale`.
    pub fn localized_name(&self, locale: &str) -> (r: &str)
        ensures
            r@ == name_text(self, locale@),
    {
        get_translatable(&self.name, locale)
    }

    /// The summary to show for `locale`; empty where the component has none.
    pub fn localized_summary(&self, locale: &str) -> (r: &str)
        ensures
            r@ == summary_text(self, locale@),
    {
        match &self.summary {
            Some(summary) => get_translatable(summary, locale),
            None => {
                proof {
                    reveal_strlit("");
                    assert(""@ =~= Seq::<char>::empty());
                }
                ""
            },
        }
    }
}

impl View for MetadataStore {
    type V = Seq<StoreEntry>;

    closed spec fn view(&self) -> Seq<StoreEntry> {
        self.entries@
    }
}

impl MetadataStore {
    /// Whether the store is valid: no identifier occurs twice.
    pub open spec fn wf(&self) -> bool {
        distinct_ids(self@)
    }

    /// A store without collections.
    pub fn new() -> (r: Self)
        ensures
            r@.len() == 0,
            r.wf(),
    {
        MetadataStore { entries: Vec::new() }
    }

    /// The number of loaded collections.
    pub fn len(&self) -> (n: usize)
        ensures
            n == self@.len(),
    {
        self.entries.len()
    }

    /// The icon of `component`, which stands in a collection of origin
    /// `origin`. It never fails: a component without an icon asset gets the
    /// placeholder.
    pub fn icon(origin: &Option<String>, component: &Component) -> (r: Icon)
        ensures
            r == icon_of(*origin, component.icon),
    {
        match &component.icon {
            Some(reference) => Icon::Asset {
                origin: copy_text(origin),
                reference: reference.clone(),
            },
            None => Icon::Placeholder,
        }
    }

    /// The `i`-th loaded collection and its identifier.
    pub fn entry(&self, i: usize) -> (r: &StoreEntry)
        requires
            i < self@.len(),
        ensures
            *r == self@[i as int],
    {
        &self.entries[i]
    }

    /// The place of the collection with identifier `id`, if it is loaded.
    pub fn position(&self, id: &str) -> (r: Option<usize>)
        ensures
            match r {
                Some(i) => i < self@.len() && self@[i as int].id@ == id@,
                None => lacks_id(self@, id@),
            },
    {
        let wanted = id.to_owned();
        let mut i: usize = 0;
        while i < self.entries.len()
            invariant
                i <= self.entries.len(),
                wanted@ == id@,
                forall|k: int| 0 <= k < i ==> (#[trigger] self.entries@[k]).id@ != id@,
            decreases self.entries.len() - i,
        {
            if self.entries[i].id == wanted {
                return Some(i);
            }
            i = i + 1;
        }
        None
    }

    /// Loads `collection` under `id` and returns its place. A collection
    /// already loaded under that identifier is replaced in its place;
    /// otherwise the new one comes last. The other collections stay.
    pub fn insert(&mut self, id: &str, collection: Arc<Collection>) -> (place: usize)
        requires
            old(self).wf(),
        ensures
            final(self).wf(),
            place < final(self)@.len(),
            final(self)@[place as int].id@ == id@,
            final(self)@[place as int].collection == collection,
            forall|j: int|
                0 <= j < old(self)@.len() && j != place
                    ==> (#[trigger] final(self)@[j]) == old(self)@[j],
            lacks_id(old(self)@, id@)
                ==> place == old(self)@.len() && final(self)@.len() == old(self)@.len() + 1,
            !lacks_id(old(self)@, id@)
                ==> old(self)@[place as int].id@ == id@
                    && final(self)@.len() == old(self)@.len(),
    {
        let entry = StoreEntry { id: id.to_owned(), collection };
        match self.position(id) {
            Some(i) => {
                self.entries[i] = entry;
                i
            },
            None => {
                self.entries.push(entry);
                self.entries.len() - 1
            },
        }
    }

    /// Builds the store from the files that were read. A file that did not
    /// parse is skipped; of several files with one identifier the last that
    /// parsed is kept. Building never fails: where nothing parsed, the store
    /// is empty.
    pub fn load(files: &Vec<ParsedFile>) -> (store: MetadataStore)
        ensures
            store.wf(),
            loaded(files@, files@.len() as int, store@),
    {
        let mut store = MetadataStore::new();
        let mut n: usize = 0;
        while n < files.len()
            invariant
                n <= files.len(),
                store.wf(),
                loaded(files@, n as int, store@),
            decreases files.len() - n,
        {
            match &files[n].outcome {
                Ok(collection) => {
                    let ghost before = store@;
                    let place = store.insert(files[n].id.as_str(), share(collection));
                    proof {
                        let after = store@;
                        assert forall|k: int| 0 <= k < after.len() implies from_file(
                            files@,
                            n + 1,
                            #[trigger] after[k],
                        ) by {
                            if k == place {
                                assert(kept_as(files@[n as int], after[k]));
                            } else {
                                assert(after[k] == before[k]);
                                let i = choose|i: int|
                                    0 <= i < n && kept_as(#[trigger] files@[i], before[k]);
                                assert(kept_as(files@[i], after[k]));
                            }
                        }
                        assert forall|i: int| 0 <= i < n + 1 && #[trigger] stays(
                            files@,
                            i,
                            n + 1,
                        ) implies holds(after, files@[i]) by {
                            if i == n {
                                assert(kept_as(files@[i], after[place as int]));
                            } else {
                                assert(stays(files@, i, n as int));
                                let k = choose|k: int|
                                    0 <= k < before.len() && kept_as(
                                        files@[i],
                                        #[trigger] before[k],
                                    );
                                assert(files@[n as int].outcome is Ok);
                                assert(files@[i].id@ != files@[n as int].id@);
                                assert(after[k] == before[k]);
                                assert(kept_as(files@[i], after[k]));
                            }
                        }
                    }
                },
                Err(_) => {
                    proof {
                        assert forall|k: int| 0 <= k < store@.len() implies from_file(
                            files@,
                            n + 1,
                            #[trigger] store@[k],
                        ) by {
                            let i = choose|i: int|
                                0 <= i < n && kept_as(#[trigger] files@[i], store@[k]);
                            assert(kept_as(files@[i], store@[k]));
                        }
                        assert forall|i: int| 0 <= i < n + 1 && #[trigger] stays(
                            files@,
                            i,
                            n + 1,
                        ) implies holds(store@, files@[i]) by {
                            assert(i < n);
                            assert(stays(files@, i, n as int));
                        }
                    }
                },
            }
            n = n + 1;
        }
        store
    }
}

} // verus!
