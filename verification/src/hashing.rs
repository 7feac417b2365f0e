//! Content fingerprinting: the size and 128-bit MD5 digest of a byte
//! stream, fed incrementally so that arbitrarily large files can be
//! hashed under bounded memory.
//!
//! The digest itself comes from the `md5` crate behind a thin trusted
//! layer; everything said about it goes through the uninterpreted
//! function [`md5_of`], so that equal byte sequences are guaranteed to
//! fingerprint equally.

use vstd::prelude::*;

verus! {

/// The 128-bit MD5 digest of a byte sequence, as one unsigned value:
/// the sixteen digest bytes read in order, most significant first.
/// A mathematical function of the bytes alone.
pub uninterp spec fn md5_of(bytes: Seq<u8>) -> u128;

#[verifier::external_type_specification]
#[verifier::external_body]
pub struct ExMd5Context(md5::Context);

/// A running MD5 computation together with the (ghost) bytes fed so far.
pub struct Md5Stream {
    context: md5::Context,
    fed: Ghost<Seq<u8>>,
}

impl Md5Stream {
    /// The byte sequence consumed so far.
    pub closed spec fn fed_bytes(&self) -> Seq<u8> {
        self.fed@
    }

    /// Relies on `md5::Context::new`: a fresh context has consumed nothing.
    #[verifier::external_body]
    pub fn new() -> (s: Self)
        ensures
            s.fed_bytes() == Seq::<u8>::empty(),
    {
        Md5Stream { context: md5::Context::new(), fed: Ghost(Seq::empty()) }
    }

    /// Relies on `md5::Context::consume`: feeding a chunk appends it to
    /// the stream being hashed.
    #[verifier::external_body]
    pub fn consume(&mut self, chunk: &[u8])
        ensures
            final(self).fed_bytes() == old(self).fed_bytes() + chunk@,
    {
        self.context.consume(chunk);
    }

    /// Relies on `md5::Context::compute`: the finished digest is the MD5
    /// of exactly the bytes consumed, a function of those bytes alone.
    #[verifier::external_body]
    pub fn compute(self) -> (d: u128)
        ensures
            d == md5_of(self.fed_bytes()),
    {
        u128::from_be_bytes(self.context.compute().0)
    }
}

/// A content fingerprint: the byte count and the MD5 digest of a stream.
#[derive(PartialEq, Eq, Structural)]
pub struct Fingerprint {
    pub size: u64,
    pub digest: u128,
}

/// Streams bytes into a fingerprint: size is counted and the digest
/// accumulated chunk by chunk, so no whole-file buffer is ever needed.
pub struct Fingerprinter {
    stream: Md5Stream,
    size: u64,
}

impl Fingerprinter {
    /// The byte sequence fed so far.
    pub closed spec fn fed_bytes(&self) -> Seq<u8> {
        self.stream.fed_bytes()
    }

    /// The byte counter agrees with the bytes fed.
    pub closed spec fn wf(&self) -> bool {
        self.size == self.fed_bytes().len()
    }

    pub fn new() -> (f: Self)
        ensures
            f.wf(),
            f.fed_bytes() == Seq::<u8>::empty(),
    {
        Fingerprinter { stream: Md5Stream::new(), size: 0 }
    }

    /// Feeds one chunk of content.
    pub fn update(&mut self, chunk: &[u8])
        requires
            old(self).wf(),
            old(self).fed_bytes().len() + chunk@.len() <= u64::MAX,
        ensures
            final(self).wf(),
            final(self).fed_bytes() == old(self).fed_bytes() + chunk@,
    {
        self.stream.consume(chunk);
        self.size = self.size + chunk.len() as u64;
    }

    /// Finishes the stream: the fingerprint holds the total byte count
    /// and the MD5 digest of everything fed, in order.
    pub fn finish(self) -> (fp: Fingerprint)
        requires
            self.wf(),
        ensures
            fp.size == self.fed_bytes().len(),
            fp.digest == md5_of(self.fed_bytes()),
    {
        let size = self.size;
        let digest = self.stream.compute();
        Fingerprint { size, digest }
    }
}

/// The fingerprint of a byte slice held wholly in memory.
pub fn fingerprint_bytes(content: &[u8]) -> (fp: Fingerprint)
    requires
        content@.len() <= u64::MAX,
    ensures
        fp.size == content@.len(),
        fp.digest == md5_of(content@),
{
    let mut f = Fingerprinter::new();
    f.update(content);
    proof {
        assert(f.fed_bytes() =~= content@);
    }
    f.finish()
}

/// Files with identical byte content always carry identical fingerprint
/// digests, and fingerprinting is deterministic: the digest is a function
/// of the content alone, however that content was chunked while feeding.
pub proof fn lemma_digest_deterministic(content1: Seq<u8>, content2: Seq<u8>)
    requires
        content1 == content2,
    ensures
        md5_of(content1) == md5_of(content2),
{
}

} // verus!
