//! Retrieval: a small fixed allow-list of auxiliary assets is served from
//! the static root rather than the upload storage, missing names fall back
//! to a not-found page, and the content type is guessed from the name.

use vstd::prelude::*;
use vstd::slice::slice_to_vec;
use vstd::string::StringExecFns;
use crate::storage::Storage;
use crate::strutil::str_eq;

verus! {

/// The auxiliary assets served from the static root instead of the upload
/// storage directory.
pub open spec fn is_aux_name(name: Seq<char>) -> bool {
    name == "favicon.ico"@ || name == "style.css"@ || name == "CircularBody.woff"@
}

/// Whether a requested name is one of the auxiliary assets.
pub fn is_aux_file(name: &str) -> (r: bool)
    ensures
        r == is_aux_name(name@),
{
    str_eq(name, "favicon.ico") || str_eq(name, "style.css") || str_eq(name, "CircularBody.woff")
}

/// The path a requested name resolves to: auxiliary assets live directly
/// under the root, everything else under its `file` subdirectory.
pub open spec fn resolved_path_chars(root: Seq<char>, name: Seq<char>) -> Seq<char> {
    if is_aux_name(name) {
        root + seq!['/'] + name
    } else {
        root + seq!['/', 'f', 'i', 'l', 'e', '/'] + name
    }
}

/// Resolves a requested name against the root directory.
pub fn resolve_path(root: &str, name: &str) -> (r: String)
    ensures
        r@ == resolved_path_chars(root@, name@),
{
    let mut r = root.to_owned();
    if is_aux_file(name) {
        r.push('/');
    } else {
        r.append("/file/");
        proof {
            reveal_strlit("/file/");
            assert("/file/"@ =~= seq!['/', 'f', 'i', 'l', 'e', '/']);
        }
    }
    r.append(name);
    proof {
        assert(r@ =~= resolved_path_chars(root@, name@));
    }
    r
}

/// The content type the `new_mime_guess` crate infers from a name: a
/// function of the name alone.
pub uninterp spec fn mime_guess_of(name: Seq<char>) -> Option<Seq<char>>;

/// Relies on `new_mime_guess::from_path` and `Mime::to_string`: the first
/// guessed content type for the name's extension, if any.
#[verifier::external_body]
pub(crate) fn guess_mime_type(name: &str) -> (r: Option<String>)
    ensures
        r.deep_view() == mime_guess_of(name@),
{
    new_mime_guess::from_path(name).first().map(|m| m.to_string())
}

/// The body served with a not-found response: the stored not-found page when
/// one exists, otherwise a minimal built-in message.
pub open spec fn not_found_body_bytes(page: Option<Seq<u8>>) -> Seq<u8> {
    match page {
        Some(bytes) => bytes,
        None => vstd::utf8::encode_utf8("<h1>404 Not Found</h1>"@),
    }
}

/// Builds the not-found body from an optionally stored page.
pub fn not_found_body(page: Option<&Vec<u8>>) -> (r: Vec<u8>)
    ensures
        r@ == not_found_body_bytes(page.deep_view()),
{
    match page {
        Some(bytes) => bytes.clone(),
        None => slice_to_vec("<h1>404 Not Found</h1>".as_bytes()),
    }
}

/// What a name resolves to across the two stores: auxiliary assets are
/// looked up in the static store alone, everything else in the upload store
/// alone.
pub open spec fn retrieve_found(
    aux: Map<Seq<char>, Seq<u8>>,
    store: Map<Seq<char>, Seq<u8>>,
    name: Seq<char>,
) -> Option<Seq<u8>> {
    if is_aux_name(name) {
        if aux.contains_key(name) {
            Some(aux[name])
        } else {
            None
        }
    } else {
        if store.contains_key(name) {
            Some(store[name])
        } else {
            None
        }
    }
}

/// The response to a retrieval request.
pub enum Retrieved {
    /// The file's bytes, with the content type guessed from the name.
    Found { bytes: Vec<u8>, mime: Option<String> },
    /// No such file; the body to serve with the not-found status.
    NotFound { body: Vec<u8> },
}

/// Retrieves a name: from the static store for auxiliary assets, from the
/// upload store otherwise, falling back to the not-found body.
pub fn retrieve(
    aux: &Storage,
    store: &Storage,
    not_found_page: Option<&Vec<u8>>,
    name: &String,
) -> (r: Retrieved)
    requires
        aux.wf(),
        store.wf(),
    ensures
        (match r {
            Retrieved::Found { bytes, mime } => retrieve_found(aux@, store@, name@) == Some(bytes@)
                && mime.deep_view() == mime_guess_of(name@),
            Retrieved::NotFound { body } => retrieve_found(aux@, store@, name@) is None && body@
                == not_found_body_bytes(not_found_page.deep_view()),
        }),
{
    let source = if is_aux_file(name.as_str()) {
        aux
    } else {
        store
    };
    match source.get(name) {
        Some(bytes) => {
            let mime = guess_mime_type(name.as_str());
            Retrieved::Found { bytes: bytes.clone(), mime }
        },
        None => Retrieved::NotFound { body: not_found_body(not_found_page) },
    }
}

/// Retrieval of an auxiliary name reads the static store alone: whatever the
/// upload storage holds — a same-named upload included — the outcome is the
/// same.
pub proof fn lemma_aux_retrieval_ignores_storage(
    aux: Map<Seq<char>, Seq<u8>>,
    store1: Map<Seq<char>, Seq<u8>>,
    store2: Map<Seq<char>, Seq<u8>>,
    name: Seq<char>,
)
    requires
        is_aux_name(name),
    ensures
        retrieve_found(aux, store1, name) == retrieve_found(aux, store2, name),
{
}

} // verus!
