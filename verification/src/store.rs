//! The open documents: one live buffer per document identifier.
use crate::change::Change;
use crate::error::ServiceError;
use crate::virtual_file::{apply_batch_spec, batch_err, batch_ok, VirtualFile};
use std::collections::HashMap;
use vstd::prelude::*;

verus! {

/// Maps each open document's identifier to its buffer. Its view is the
/// map from identifier to document text.
pub struct DocumentStore {
    pub docs: HashMap<u64, VirtualFile>,
}

impl View for DocumentStore {
    type V = Map<u64, Seq<char>>;

    open spec fn view(&self) -> Map<u64, Seq<char>> {
        self.docs@.map_values(|f: VirtualFile| f@)
    }
}

impl DocumentStore {
    pub fn new() -> (r: Self)
        ensures
            r@ == Map::<u64, Seq<char>>::empty(),
    {
        let r = DocumentStore { docs: HashMap::new() };
        proof {
            assert(r@ =~= Map::<u64, Seq<char>>::empty());
        }
        r
    }

    pub fn contains(&self, id: u64) -> (r: bool)
        ensures
            r == self@.contains_key(id),
    {
        self.docs.contains_key(&id)
    }

    /// Opens a document, seeding its buffer with the full text; an
    /// already-open document is replaced wholesale.
    pub fn open(&mut self, id: u64, text: &str)
        ensures
            final(self)@ == old(self)@.insert(id, text@),
    {
        let file = VirtualFile::new(text);
        self.docs.insert(id, file);
        proof {
            assert(final(self)@ =~= old(self)@.insert(id, text@));
        }
    }

    /// Closes a document, dropping its buffer; closing a document that
    /// is not open does nothing.
    pub fn close(&mut self, id: u64)
        ensures
            final(self)@ == old(self)@.remove(id),
    {
        self.docs.remove(&id);
        proof {
            assert(final(self)@ =~= old(self)@.remove(id));
        }
    }

    /// A snapshot of one document's current text, for read-only work
    /// that must not hold the store.
    pub fn snapshot(&self, id: u64) -> (r: Option<VirtualFile>)
        ensures
            r is Some <==> self@.contains_key(id),
            r is Some ==> r->0@ == self@[id],
    {
        match self.docs.get(&id) {
            Some(f) => Some(f.snapshot()),
            None => None,
        }
    }

    /// Applies a change batch to one open document, each edit resolved
    /// against the state the earlier ones left. A batch for a document
    /// that is not open reports `MissingDocument` and changes nothing.
    pub fn change(&mut self, id: u64, changes: Vec<Change>) -> (r: Result<(), ServiceError>)
        ensures
            !old(self)@.contains_key(id) ==> final(self)@ == old(self)@ && r == Err::<
                (),
                ServiceError,
            >(ServiceError::MissingDocument),
            old(self)@.contains_key(id) ==> {
                &&& final(self)@ == old(self)@.insert(
                    id,
                    apply_batch_spec(old(self)@[id], changes@),
                )
                &&& (r is Ok <==> batch_ok(old(self)@[id], changes@))
                &&& (r is Err ==> r->Err_0 == batch_err(old(self)@[id], changes@))
            },
    {
        let mut file = match self.docs.remove(&id) {
            Some(f) => f,
            None => {
                proof {
                    assert(final(self)@ =~= old(self)@);
                }
                return Err(ServiceError::MissingDocument);
            },
        };
        let res = file.apply_changes(changes);
        self.docs.insert(id, file);
        proof {
            assert(final(self)@ =~= old(self)@.insert(
                id,
                apply_batch_spec(old(self)@[id], changes@),
            ));
        }
        res
    }
}

} // verus!
