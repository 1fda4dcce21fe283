//! The shared store of open documents: a concurrent map from document key
//! (the path component of its URI) to [`TextDocument`].
//!
//! The map itself is `dashmap::DashMap`, kept behind a trusted boundary:
//! each wrapper states over [`store_docs`] what the dashmap source shows of
//! the one call it makes. Dashmap guards its shards with read-write locks,
//! so concurrent readers stay safe; the verified edit path [`mutate`] holds
//! the store exclusively (`&mut`) from taking a document out to storing it
//! back, so an edit runs whole, and edits under one key never touch the
//! document under another.
//!
//! [`mutate`]: DocumentStore::mutate

use vstd::prelude::*;

use crate::text_document::changes_result;
use crate::text_document::changes_text;
use crate::text_document::ChangeEvent;
use crate::text_document::DocView;
use crate::text_document::TextDocument;
use crate::DocumentError;

verus! {

/// Mapping from document key to document, safe for concurrent callers.
#[verifier::external_body]
pub struct DocumentStore {
    inner: dashmap::DashMap<String, TextDocument>,
}

/// The documents a store holds, keyed by document key.
pub uninterp spec fn store_docs(store: DocumentStore) -> Map<Seq<char>, DocView>;

/// The store holds nothing.
pub open spec fn no_docs(m: Map<Seq<char>, DocView>) -> bool {
    m == Map::<Seq<char>, DocView>::empty()
}

/// The documents a store holds after a change batch under `key`: the entry
/// for `key` (if any) holds the buffer the batch leaves, every other entry
/// is untouched.
pub open spec fn store_after_changes(
    m: Map<Seq<char>, DocView>,
    key: Seq<char>,
    cs: Seq<ChangeEvent>,
) -> Map<Seq<char>, DocView> {
    if m.contains_key(key) {
        m.insert(key, DocView { text: changes_text(m[key].text, cs), ..m[key] })
    } else {
        m
    }
}

impl DocumentStore {
    /// Relies on `dashmap::DashMap::new`: an empty map.
    #[verifier::external_body]
    pub fn new() -> (r: DocumentStore)
        ensures
            no_docs(store_docs(r)),
    {
        DocumentStore { inner: dashmap::DashMap::new() }
    }

    /// Relies on `dashmap::DashMap::insert`: inserts or overwrites the
    /// entry for `key`; last write wins.
    #[verifier::external_body]
    pub fn open(&mut self, key: String, document: TextDocument)
        ensures
            store_docs(*final(self)) == store_docs(*old(self)).insert(key@, document@),
    {
        self.inner.insert(key, document);
    }

    /// Relies on `dashmap::DashMap::get`: a shared read lock on the one
    /// entry for `key`, under which the document is cloned out.
    #[verifier::external_body]
    pub fn get_snapshot(&self, key: &String) -> (r: Option<TextDocument>)
        ensures
            store_docs(*self).contains_key(key@) ==> r is Some,
            !store_docs(*self).contains_key(key@) ==> r is None,
            r matches Some(d) ==> d@ == store_docs(*self)[key@],
    {
        self.inner.get(key).map(|entry| entry.value().clone())
    }

    /// Relies on `dashmap::DashMap::remove`: takes the entry for `key` out
    /// of the map, leaving every other entry; an absent key returns `None`
    /// and changes nothing.
    #[verifier::external_body]
    fn take(&mut self, key: &String) -> (r: Option<TextDocument>)
        ensures
            store_docs(*old(self)).contains_key(key@) ==> r is Some,
            !store_docs(*old(self)).contains_key(key@) ==> r is None && store_docs(*final(self))
                == store_docs(*old(self)),
            r matches Some(d) ==> d@ == store_docs(*old(self))[key@] && store_docs(*final(self))
                == store_docs(*old(self)).remove(key@),
    {
        self.inner.remove(key).map(|(_key, document)| document)
    }

    /// Exclusive access to the one entry for `key`: takes the document out,
    /// applies the change batch in order, and stores the result back under
    /// the same key. An absent key is reported, and the map left unchanged.
    pub fn mutate(&mut self, key: &String, changes: &Vec<ChangeEvent>) -> (r: Result<
        (),
        DocumentError,
    >)
        ensures
            store_docs(*final(self)) == store_after_changes(
                store_docs(*old(self)),
                key@,
                changes@,
            ),
            store_docs(*old(self)).contains_key(key@) ==> r == changes_result(
                store_docs(*old(self))[key@].text,
                changes@,
            ),
            !store_docs(*old(self)).contains_key(key@) ==> (r matches Err(e)
                && e matches DocumentError::DocumentNotFound { path } && path@ == key@),
    {
        match self.take(key) {
            Option::Some(mut document) => {
                let applied = document.apply_changes(changes);
                self.open(key.clone(), document);
                proof {
                    assert(store_docs(*self) =~= store_after_changes(
                        store_docs(*old(self)),
                        key@,
                        changes@,
                    ));
                }
                applied
            },
            Option::None => Err(DocumentError::DocumentNotFound { path: key.clone() }),
        }
    }
}

/// Exclusivity across keys: a change batch under one key leaves the
/// document under every other key exactly as it was, so edits to
/// independent documents cannot interleave. (How concurrent callers are
/// scheduled is dashmap's locking, described on [`DocumentStore`].)
pub proof fn lemma_key_independence(
    m: Map<Seq<char>, DocView>,
    key: Seq<char>,
    cs: Seq<ChangeEvent>,
    other: Seq<char>,
)
    requires
        other != key,
    ensures
        store_after_changes(m, key, cs).contains_key(other) == m.contains_key(other),
        m.contains_key(other) ==> store_after_changes(m, key, cs)[other] == m[other],
{
}

} // verus!
