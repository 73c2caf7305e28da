//! The upload pipeline: token check, extension gate, streaming size
//! enforcement, identifier derivation and the single storage write — and the
//! retrieval URL built for an accepted upload.

use vstd::prelude::*;
use vstd::string::StringExecFns;
use crate::extension::{extension_of, extract_extension, unknown_chars};
use crate::ident::{UploadAttempt, identifier_of};
use crate::numfmt::{dec_chars_of, u64_to_dec_string};
use crate::policy::{Policy, ExtensionPolicy, token_accepted, extension_allowed_spec};
use crate::storage::Storage;

verus! {

/// The filename an upload is judged by: the client's, or "unknown".
pub open spec fn filename_chars(filename: Option<Seq<char>>) -> Seq<char> {
    match filename {
        Some(name) => name,
        None => unknown_chars(),
    }
}

/// Whether an upload passes every gate: token, extension, and size cap.
pub open spec fn upload_accepted(
    policy: Policy,
    token: Option<Seq<char>>,
    filename: Option<Seq<char>>,
    chunks: Seq<Seq<u8>>,
) -> bool {
    &&& token_accepted(policy, token)
    &&& extension_allowed_spec(policy.extensions, extension_of(filename_chars(filename)))
    &&& chunks.flatten().len() <= policy.max_file_size
}

/// The running size at the first chunk that drives it over the cap, starting
/// from `acc` bytes already accumulated.
pub open spec fn first_excess_from(chunks: Seq<Seq<u8>>, acc: nat, max: nat) -> nat
    decreases chunks.len(),
{
    if chunks.len() == 0 {
        0
    } else if acc + chunks.first().len() > max {
        acc + chunks.first().len()
    } else {
        first_excess_from(chunks.drop_first(), acc + chunks.first().len(), max)
    }
}

/// The running size reported when an upload is rejected for its size: the
/// cumulative size at the first chunk that exceeded the cap.
pub open spec fn first_excess(chunks: Seq<Seq<u8>>, max: nat) -> nat {
    first_excess_from(chunks, 0, max)
}

/// The outcome of an upload attempt.
pub enum UploadOutcome {
    /// The upload was allowed in full; the content is stored under the identifier.
    Accepted { identifier: String },
    /// The policy requires a token and none matched.
    IncorrectToken,
    /// The extension gate refused the extracted extension.
    ExtensionNotAllowed { extension: String },
    /// The cumulative body size exceeded the cap; `size` is the running size
    /// at the chunk that crossed it.
    TooLarge { size: usize },
}

/// Runs one upload through every gate, in the order the service applies
/// them: token, extension, then size while streaming. Exactly an accepted
/// upload writes to storage, and it writes the one derived identifier.
#[verifier::loop_isolation(false)]
pub fn process_upload(
    policy: &Policy,
    token: Option<&String>,
    filename: Option<&String>,
    chunks: &Vec<Vec<u8>>,
    now: u64,
    storage: &mut Storage,
) -> (r: UploadOutcome)
    requires
        old(storage).wf(),
        chunks.deep_view().flatten().len() <= usize::MAX,
    ensures
        final (storage).wf(),
        ({
            let tok_ok = token_accepted(*policy, token.deep_view());
            let ext = extension_of(filename_chars(filename.deep_view()));
            let ext_ok = extension_allowed_spec(policy.extensions, ext);
            let size_ok = chunks.deep_view().flatten().len() <= policy.max_file_size;
            &&& (r is Accepted <==> upload_accepted(
                *policy,
                token.deep_view(),
                filename.deep_view(),
                chunks.deep_view(),
            ))
            &&& (r is IncorrectToken <==> !tok_ok)
            &&& (r is ExtensionNotAllowed <==> tok_ok && !ext_ok)
            &&& (r matches UploadOutcome::ExtensionNotAllowed { extension } ==> extension@ == ext)
            &&& (r is TooLarge <==> tok_ok && ext_ok && !size_ok)
            &&& (r matches UploadOutcome::TooLarge { size } ==> size as nat == first_excess(
                chunks.deep_view(),
                policy.max_file_size as nat,
            ))
            &&& (r matches UploadOutcome::Accepted { identifier } ==> identifier@ == identifier_of(
                chunks.deep_view(),
                now,
                ext,
            ) && final (storage)@ == old(storage)@.insert(
                identifier@,
                chunks.deep_view().flatten(),
            ))
            &&& (!(r is Accepted) ==> final (storage)@ == old(storage)@)
        }),
{
    if !policy.check_token(token) {
        return UploadOutcome::IncorrectToken;
    }
    let name: &str = match filename {
        Some(f) => f.as_str(),
        None => "unknown",
    };
    proof {
        reveal_strlit("unknown");
        assert("unknown"@ =~= unknown_chars());
        assert(name@ == filename_chars(filename.deep_view()));
    }
    let ext = extract_extension(name);
    if !policy.extension_allowed(&ext) {
        return UploadOutcome::ExtensionNotAllowed { extension: ext };
    }
    let ghost all = chunks.deep_view();
    let mut attempt = UploadAttempt::new();
    let n = chunks.len();
    let mut i: usize = 0;
    proof {
        assert(all.take(0) =~= Seq::<Seq<u8>>::empty());
        assert(all.skip(0) =~= all);
        assert(all.take(n as int) =~= all);
    }
    while i < n
        invariant
            i <= n,
            n == chunks@.len(),
            all == chunks.deep_view(),
            all.flatten().len() <= usize::MAX,
            attempt.wf(),
            attempt.chunks() == all.take(i as int),
            attempt.content().len() <= policy.max_file_size,
            first_excess_from(all.skip(i as int), attempt.content().len() as nat,
                policy.max_file_size as nat) == first_excess(all, policy.max_file_size as nat),
        decreases n - i,
    {
        proof {
            crate::ident::lemma_flatten_take_len_le(all, i as int);
            assert(all.take(i as int + 1).drop_last() =~= all.take(i as int));
            assert(all.take(i as int + 1) =~= all.take(i as int).push(all[i as int]));
            all.take(i as int).lemma_flatten_push(all[i as int]);
            crate::ident::lemma_flatten_take_len_le(all, i as int + 1);
            assert(all[i as int] == chunks@[i as int]@);
            assert(all.skip(i as int).first() == all[i as int]);
            assert(all.skip(i as int).drop_first() =~= all.skip(i as int + 1));
        }
        let ok = attempt.push_chunk(chunks[i].as_slice(), policy.max_file_size);
        proof {
            assert(all[i as int] == chunks@[i as int]@);
        }
        if !ok {
            let size = attempt.size();
            return UploadOutcome::TooLarge { size };
        }
        i += 1;
    }
    proof {
        assert(all.take(n as int) =~= all);
        assert(attempt.content() == all.flatten());
    }
    let (identifier, content) = attempt.finish(now, ext.as_str());
    let r = UploadOutcome::Accepted { identifier: identifier.clone() };
    storage.put(identifier, content);
    r
}

/// In whitelist mode, once the token gate and the size cap are satisfied,
/// acceptance holds exactly when the extracted extension is on the list.
pub proof fn lemma_whitelist_gates(
    policy: Policy,
    token: Option<Seq<char>>,
    filename: Option<Seq<char>>,
    chunks: Seq<Seq<u8>>,
    list: Vec<String>,
)
    requires
        policy.extensions == ExtensionPolicy::Whitelist(list),
        token_accepted(policy, token),
        chunks.flatten().len() <= policy.max_file_size,
    ensures
        upload_accepted(policy, token, filename, chunks) <==> list.deep_view().contains(
            extension_of(filename_chars(filename)),
        ),
{
}

/// In blacklist mode, once the token gate and the size cap are satisfied,
/// acceptance holds exactly when the extracted extension is off the list.
pub proof fn lemma_blacklist_gates(
    policy: Policy,
    token: Option<Seq<char>>,
    filename: Option<Seq<char>>,
    chunks: Seq<Seq<u8>>,
    list: Vec<String>,
)
    requires
        policy.extensions == ExtensionPolicy::Blacklist(list),
        token_accepted(policy, token),
        chunks.flatten().len() <= policy.max_file_size,
    ensures
        upload_accepted(policy, token, filename, chunks) <==> !list.deep_view().contains(
            extension_of(filename_chars(filename)),
        ),
{
}

/// The retrieval URL for a stored name: scheme by `ssl`, the port left out
/// behind a reverse proxy.
pub open spec fn file_url_chars(
    ssl: bool,
    proxy: bool,
    host: Seq<char>,
    port: u16,
    name: Seq<char>,
) -> Seq<char> {
    (if ssl {
        seq!['h', 't', 't', 'p', 's']
    } else {
        seq!['h', 't', 't', 'p']
    }) + seq![':', '/', '/'] + host + (if proxy {
        Seq::<char>::empty()
    } else {
        seq![':'] + dec_chars_of(port as nat)
    }) + seq!['/'] + name
}

/// Builds the retrieval URL for a stored name.
pub fn file_url(ssl: bool, proxy: bool, host: &str, port: u16, name: &str) -> (r: String)
    ensures
        r@ == file_url_chars(ssl, proxy, host@, port, name@),
{
    let mut r = if ssl {
        let s = String::from_str("https");
        proof {
            reveal_strlit("https");
            assert(s@ =~= seq!['h', 't', 't', 'p', 's']);
        }
        s
    } else {
        let s = String::from_str("http");
        proof {
            reveal_strlit("http");
            assert(s@ =~= seq!['h', 't', 't', 'p']);
        }
        s
    };
    r.append("://");
    proof {
        reveal_strlit("://");
        assert("://"@ =~= seq![':', '/', '/']);
    }
    r.append(host);
    if !proxy {
        r.push(':');
        let port_text = u64_to_dec_string(port as u64);
        r.append(port_text.as_str());
    }
    r.push('/');
    r.append(name);
    proof {
        assert(r@ =~= file_url_chars(ssl, proxy, host@, port, name@));
    }
    r
}

} // verus!
