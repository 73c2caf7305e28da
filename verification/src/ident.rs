//! Identifier derivation. The digest accumulator is fed the whole
//! accumulated upload after every chunk — the byte stream hashed is the
//! concatenation of all chunk prefixes, not the file content alone — and
//! finally the decimal text of a clock salt. The 64-digit hexadecimal digest
//! is then compacted to the wraparound sum of its halves, and the extension
//! appended after a dot.

use vstd::prelude::*;
use vstd::string::StringExecFns;
use crate::extension::{extension_of, lemma_extension_no_dot, lemma_after_last_dot_position};
use crate::hashing::{sha256_hex_of, sha256_digest, bytes_to_hex_string, lemma_bytes_to_hex_shape};
use crate::numfmt::{dec_chars_of, u64_to_dec_string, lemma_hex_chars_are_hex_digits};
use crate::util::{shorten, shorten_spec};

verus! {

/// The bytes fed to the digest accumulator after the given chunks have
/// arrived: every chunk appends the whole buffer accumulated so far.
pub open spec fn fed_of(chunks: Seq<Seq<u8>>) -> Seq<u8>
    decreases chunks.len(),
{
    if chunks.len() == 0 {
        Seq::empty()
    } else {
        fed_of(chunks.drop_last()) + chunks.flatten()
    }
}

/// The full digest input: the fed chunk prefixes followed by the decimal
/// text of the salt.
pub open spec fn salted_feed(chunks: Seq<Seq<u8>>, salt: u64) -> Seq<u8> {
    fed_of(chunks) + vstd::utf8::encode_utf8(dec_chars_of(salt as nat))
}

/// The compacted-hash part of an identifier.
pub open spec fn identifier_stem(chunks: Seq<Seq<u8>>, salt: u64) -> Seq<char> {
    shorten_spec(sha256_hex_of(salted_feed(chunks, salt)))
}

/// The identifier under which an upload is stored: compacted hash, a dot,
/// and the extracted extension.
pub open spec fn identifier_of(chunks: Seq<Seq<u8>>, salt: u64, ext: Seq<char>) -> Seq<char> {
    identifier_stem(chunks, salt) + seq!['.'] + ext
}

/// The per-request state of an upload: the accumulated content and the bytes
/// fed to the digest accumulator so far.
pub struct UploadAttempt {
    buffer: Vec<u8>,
    fed: Vec<u8>,
    chunks: Ghost<Seq<Seq<u8>>>,
}

impl UploadAttempt {
    /// The chunks accepted so far.
    pub closed spec fn chunks(self) -> Seq<Seq<u8>> {
        self.chunks@
    }

    /// The accumulated upload content.
    pub closed spec fn content(self) -> Seq<u8> {
        self.buffer@
    }

    /// The bytes fed to the digest accumulator so far.
    pub closed spec fn fed(self) -> Seq<u8> {
        self.fed@
    }

    /// The buffer holds the concatenated chunks and the feed holds their
    /// prefixes.
    pub open spec fn wf(self) -> bool {
        self.content() == self.chunks().flatten() && self.fed() == fed_of(self.chunks())
    }

    /// An attempt that has seen no chunks.
    pub fn new() -> (r: Self)
        ensures
            r.wf(),
            r.chunks() == Seq::<Seq<u8>>::empty(),
            r.content() == Seq::<u8>::empty(),
    {
        let r = UploadAttempt { buffer: Vec::new(), fed: Vec::new(), chunks: Ghost(Seq::empty()) };
        proof {
            assert(r.chunks@.flatten() =~= Seq::<u8>::empty());
        }
        r
    }

    /// The accumulated size in bytes.
    pub fn size(&self) -> (r: usize)
        ensures
            r == self.content().len(),
    {
        self.buffer.len()
    }

    /// Appends a chunk, feeds the digest accumulator the whole accumulated
    /// buffer, and checks the running size against the cap. A chunk that
    /// drives the size over the cap is refused before it is fed, and the
    /// attempt is then dead.
    pub fn push_chunk(&mut self, chunk: &[u8], max_size: usize) -> (ok: bool)
        requires
            old(self).wf(),
            old(self).content().len() + chunk@.len() <= usize::MAX,
        ensures
            ok == (old(self).content().len() + chunk@.len() <= max_size),
            final (self).content() == old(self).content() + chunk@,
            ok ==> final (self).wf() && final (self).chunks() == old(self).chunks().push(chunk@),
    {
        self.buffer.extend_from_slice(chunk);
        if self.buffer.len() > max_size {
            return false;
        }
        self.fed.extend_from_slice(self.buffer.as_slice());
        proof {
            let before = old(self).chunks@;
            let pushed = before.push(chunk@);
            before.lemma_flatten_push(chunk@);
            assert(pushed.drop_last() =~= before);
            assert(fed_of(pushed) == fed_of(before) + pushed.flatten());
            assert(self.fed@ == fed_of(before) + (old(self).buffer@ + chunk@));
            assert(pushed.flatten() == old(self).buffer@ + chunk@);
            assert(self.fed@ == fed_of(pushed));
        }
        self.chunks = Ghost(self.chunks@.push(chunk@));
        proof {
            assert(self.chunks@ == old(self).chunks@.push(chunk@));
            assert(self.buffer@ == self.chunks@.flatten());
            assert(self.fed@ == fed_of(self.chunks@));
        }
        true
    }

    /// Feeds the salt, finalizes the digest, compacts it, and appends the
    /// extension: the derived identifier, returned with the content buffer.
    pub fn finish(self, salt: u64, extension: &str) -> (r: (String, Vec<u8>))
        requires
            self.wf(),
        ensures
            r.0@ == identifier_of(self.chunks(), salt, extension@),
            r.1@ == self.content(),
    {
        let UploadAttempt { buffer, mut fed, chunks } = self;
        let salt_text = u64_to_dec_string(salt);
        fed.extend_from_slice(salt_text.as_str().as_bytes());
        proof {
            assert(fed@ == salted_feed(chunks@, salt));
        }
        let digest = sha256_digest(fed.as_slice());
        let hex = bytes_to_hex_string(digest.as_slice());
        proof {
            lemma_bytes_to_hex_shape(digest@);
        }
        let mut identifier = shorten(hex.as_str());
        identifier.push('.');
        identifier.append(extension);
        proof {
            assert(identifier@ =~= identifier_of(chunks@, salt, extension@));
        }
        (identifier, buffer)
    }
}

/// Derives the storage identifier for an upload arriving in the given
/// chunks, salted with `salt`: a pure function of its arguments, so equal
/// chunks, salt and extension always yield the same identifier.
pub fn derive_identifier(chunks: &Vec<Vec<u8>>, salt: u64, extension: &str) -> (r: String)
    requires
        chunks.deep_view().flatten().len() <= usize::MAX,
    ensures
        r@ == identifier_of(chunks.deep_view(), salt, extension@),
{
    let ghost all = chunks.deep_view();
    let mut attempt = UploadAttempt::new();
    let n = chunks.len();
    let mut i: usize = 0;
    proof {
        assert(all.take(0) =~= Seq::<Seq<u8>>::empty());
        assert(all.take(n as int) =~= all);
    }
    while i < n
        invariant
            i <= n,
            n == chunks@.len(),
            all == chunks.deep_view(),
            attempt.wf(),
            attempt.chunks() == all.take(i as int),
            all.flatten().len() <= usize::MAX,
        decreases n - i,
    {
        proof {
            lemma_flatten_take_len_le(all, i as int);
            assert(all.take(i as int + 1).drop_last() =~= all.take(i as int));
            assert(all.take(i as int + 1) =~= all.take(i as int).push(all[i as int]));
            all.take(i as int).lemma_flatten_push(all[i as int]);
            lemma_flatten_take_len_le(all, i as int + 1);
        }
        let ok = attempt.push_chunk(chunks[i].as_slice(), usize::MAX);
        proof {
            assert(all[i as int] == chunks@[i as int]@);
        }
        i += 1;
    }
    attempt.finish(salt, extension).0
}

/// Flattening a prefix of a chunk sequence yields no more bytes than
/// flattening the whole of it.
pub proof fn lemma_flatten_take_len_le(chunks: Seq<Seq<u8>>, i: int)
    requires
        0 <= i <= chunks.len(),
    ensures
        chunks.take(i).flatten().len() <= chunks.flatten().len(),
    decreases chunks.len() - i,
{
    if i < chunks.len() {
        lemma_flatten_take_len_le(chunks, i + 1);
        assert(chunks.take(i + 1).drop_last() =~= chunks.take(i));
        assert(chunks.take(i + 1) =~= chunks.take(i).push(chunks[i]));
        chunks.take(i).lemma_flatten_push(chunks[i]);
    } else {
        assert(chunks.take(i) =~= chunks);
    }
}

/// The extension segment of a derived identifier is exactly the extension
/// that was extracted from the filename: the compacted hash contains no dot,
/// so everything after the identifier's last dot is the extension itself.
pub proof fn lemma_identifier_extension(chunks: Seq<Seq<u8>>, salt: u64, name: Seq<char>)
    ensures
        extension_of(identifier_of(chunks, salt, extension_of(name))) == extension_of(name),
{
    let ext = extension_of(name);
    let stem = identifier_stem(chunks, salt);
    let identifier = identifier_of(chunks, salt, ext);
    lemma_extension_no_dot(name);
    lemma_hex_chars_are_hex_digits(crate::util::wrap_add_128(
        crate::numfmt::hex_value_of(sha256_hex_of(salted_feed(chunks, salt)).take(32)),
        crate::numfmt::hex_value_of(sha256_hex_of(salted_feed(chunks, salt)).skip(32)),
    ));
    assert(identifier[stem.len() as int] == '.');
    assert forall|k: int| stem.len() < k < identifier.len() implies identifier[k] != '.' by {
        assert(identifier[k] == ext[k - stem.len() - 1]);
    }
    lemma_after_last_dot_position(identifier, stem.len() as int);
    assert(identifier.subrange(stem.len() as int + 1, identifier.len() as int) =~= ext);
}

} // verus!
