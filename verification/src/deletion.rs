//! Deletion by exact identifier: empty names are refused outright, a missing
//! name is not-found — never a server error — and a present one is removed.

use vstd::prelude::*;
use crate::storage::Storage;

verus! {

/// The response to a deletion request.
#[derive(Clone, Copy, Debug, PartialEq, Eq, Structural)]
pub enum DeleteOutcome {
    /// The request named no file at all.
    EmptyName,
    /// The file existed and was removed.
    Deleted,
    /// No file is stored under the name.
    NotFound,
}

/// Deletes the file stored under `name`, matched literally. A name that was
/// never stored yields `NotFound`, never an error, and only `Deleted`
/// changes the store.
pub fn delete_file(store: &mut Storage, name: &String) -> (r: DeleteOutcome)
    requires
        old(store).wf(),
    ensures
        final (store).wf(),
        (r is EmptyName <==> name@.len() == 0),
        (r is Deleted <==> name@.len() > 0 && old(store)@.contains_key(name@)),
        (r is NotFound <==> name@.len() > 0 && !old(store)@.contains_key(name@)),
        (r is Deleted ==> final (store)@ == old(store)@.remove(name@)),
        (!(r is Deleted) ==> final (store)@ == old(store)@),
{
    if name.as_str().is_empty() {
        return DeleteOutcome::EmptyName;
    }
    if store.delete(name) {
        DeleteOutcome::Deleted
    } else {
        proof {
            assert(old(store)@.remove(name@) =~= old(store)@);
        }
        DeleteOutcome::NotFound
    }
}

} // verus!
