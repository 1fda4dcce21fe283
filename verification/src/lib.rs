//! Incremental text synchronization for a protocol language server.
//!
//! The library keeps one byte-accurate copy of every buffer the client is
//! editing, applies the incremental changes the client sends, and converts
//! between protocol positions (line, UTF-16 character) and byte offsets.

use vstd::prelude::*;

pub mod document_store;
pub mod rope_ops;
pub mod text_document;
pub mod text_model;

use crate::document_store::store_after_changes;
use crate::document_store::store_docs;
use crate::document_store::DocumentStore;
use crate::text_document::changes_result;
use crate::text_document::ChangeEvent;
use crate::text_document::DocView;
use crate::text_document::TextDocument;

verus! {

/// Why a document operation was refused.
#[derive(Debug)]
pub enum DocumentError {
    /// The given store key was never opened (or was overwritten away).
    DocumentNotFound { path: String },
    /// A range's end comes before its start.
    InvalidRange,
    /// A position lies outside the buffer it addresses.
    CoordinateOutOfRange,
}

/// Implemented by a server once per request type it answers.
pub trait RequestHandler<P, R> {
    fn handle(&self, params: P) -> Result<R, DocumentError>;
}

/// Implemented by a server once per notification type it consumes.
pub trait NotificationHandler<P> {
    fn handle(&mut self, params: P) -> Result<(), DocumentError>;
}

/// The "document opened" payload, reduced to plain values: the store key
/// (the path component of the document's URI), the full URI, the language
/// tag, the client's version, and the complete initial text.
pub struct DidOpenParams {
    pub path: String,
    pub uri: String,
    pub language_id: String,
    pub version: i32,
    pub text: String,
}

/// The "document changed" payload, reduced to plain values: the store key
/// and the ordered batch of incremental changes.
pub struct DidChangeParams {
    pub path: String,
    pub content_changes: Vec<ChangeEvent>,
}

/// The server's document state: every buffer the client has opened.
pub struct LanguageServer {
    documents: DocumentStore,
}

impl LanguageServer {
    /// The documents the server holds, keyed by path.
    pub closed spec fn docs(&self) -> Map<Seq<char>, DocView> {
        store_docs(self.documents)
    }

    /// A server with no document open.
    pub fn new() -> (r: Self)
        ensures
            r.docs() == Map::<Seq<char>, DocView>::empty(),
    {
        LanguageServer { documents: DocumentStore::new() }
    }

    /// A snapshot of the document stored under `path`, or
    /// `DocumentNotFound` for a key never opened.
    pub fn get_text_document(&self, path: &String) -> (r: Result<TextDocument, DocumentError>)
        ensures
            self.docs().contains_key(path@) ==> (r matches Ok(d) && d@ == self.docs()[path@]),
            !self.docs().contains_key(path@) ==> (r matches Err(e)
                && e matches DocumentError::DocumentNotFound { path: p } && p@ == path@),
    {
        match self.documents.get_snapshot(path) {
            Option::Some(d) => Ok(d),
            Option::None => Err(DocumentError::DocumentNotFound { path: path.clone() }),
        }
    }
}

/// Applies a change notification's batch, in order, to the document stored
/// under `path`. A key never opened is a protocol violation by the client:
/// it is reported as `DocumentNotFound`, never silently dropped.
pub fn update_text_document(
    server: &mut LanguageServer,
    path: &String,
    changes: &Vec<ChangeEvent>,
) -> (r: Result<(), DocumentError>)
    ensures
        final(server).docs() == store_after_changes(old(server).docs(), path@, changes@),
        old(server).docs().contains_key(path@) ==> r == changes_result(
            old(server).docs()[path@].text,
            changes@,
        ),
        !old(server).docs().contains_key(path@) ==> (r matches Err(e)
            && e matches DocumentError::DocumentNotFound { path: p } && p@ == path@),
{
    server.documents.mutate(path, changes)
}

impl NotificationHandler<DidOpenParams> for LanguageServer {
    /// Document opened: build the document from the payload and store it
    /// under the payload's path; a second open for the same key overwrites
    /// the entry.
    fn handle(&mut self, params: DidOpenParams) -> (r: Result<(), DocumentError>)
        ensures
            final(self).docs() == old(self).docs().insert(
                params.path@,
                (DocView {
                    version: params.version as int,
                    uri: params.uri@,
                    language_id: params.language_id@,
                    text: params.text@,
                }),
            ),
            r is Ok,
    {
        let document = TextDocument::new(
            params.version,
            params.uri,
            params.language_id,
            params.text.as_str(),
        );
        self.documents.open(params.path, document);
        Ok(())
    }
}

impl NotificationHandler<DidChangeParams> for LanguageServer {
    /// Document changed: apply the payload's changes in array order to the
    /// stored document.
    fn handle(&mut self, params: DidChangeParams) -> (r: Result<(), DocumentError>)
        ensures
            final(self).docs() == store_after_changes(
                old(self).docs(),
                params.path@,
                params.content_changes@,
            ),
            old(self).docs().contains_key(params.path@) ==> r == changes_result(
                old(self).docs()[params.path@].text,
                params.content_changes@,
            ),
            !old(self).docs().contains_key(params.path@) ==> (r matches Err(e)
                && e matches DocumentError::DocumentNotFound { path: p } && p@ == params.path@),
    {
        update_text_document(self, &params.path, &params.content_changes)
    }
}

} // verus!
