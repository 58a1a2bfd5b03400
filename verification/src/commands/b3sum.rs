//! B3SUM: BLAKE3 digests of files, printed as hex lines.

use vstd::prelude::*;
use crate::text::last_index_where;

verus! {

#[verifier::external_type_specification]
#[verifier::external_body]
pub struct ExHasher(blake3::Hasher);

/// The 32-byte BLAKE3 hash of `input`.
pub uninterp spec fn blake3_digest(input: Seq<u8>) -> Seq<u8>;

/// A BLAKE3 hasher, and the bytes it has absorbed so far.
pub struct DigestState {
    hasher: blake3::Hasher,
    absorbed: Ghost<Seq<u8>>,
}

impl DigestState {
    /// The bytes the hasher has absorbed so far.
    pub closed spec fn input(&self) -> Seq<u8> {
        self.absorbed@
    }

    /// A fresh hasher (`blake3::Hasher::new`), which has absorbed nothing.
    #[verifier::external_body]
    pub fn new() -> (r: DigestState)
        ensures
            r.input() == Seq::<u8>::empty(),
    {
        DigestState { hasher: blake3::Hasher::new(), absorbed: Ghost(Seq::empty()) }
    }

    /// Feeds bytes to the hasher (`blake3::Hasher::update`); it has then
    /// absorbed them after what it held.
    #[verifier::external_body]
    pub fn update(&mut self, data: &[u8])
        ensures
            final(self).input() == old(self).input() + data@,
    {
        self.hasher.update(data);
        self.absorbed = Ghost(self.absorbed@ + data@);
    }

    /// The hash of everything absorbed (`blake3::Hasher::finalize`, then
    /// `Hash::as_bytes`): the BLAKE3 digest of the absorbed bytes.
    #[verifier::external_body]
    pub fn finalize(&self) -> (r: [u8; 32])
        ensures
            r@ == blake3_digest(self.input()),
    {
        *self.hasher.finalize().as_bytes()
    }
}

/// The lowercase hex digit of a nibble.
pub open spec fn hex_digit(nibble: u8) -> u8 {
    if nibble <= 9 {
        (0x30 + nibble) as u8
    } else {
        (0x61 + nibble - 10) as u8
    }
}

pub fn nibble_to_hex(nibble: u8) -> (r: u8)
    requires
        nibble < 16,
    ensures
        r == hex_digit(nibble),
{
    if nibble <= 9 {
        0x30 + nibble
    } else {
        0x61 + (nibble - 10)
    }
}

/// Bytes in lowercase hex, two digits each, high nibble first.
pub open spec fn hex_bytes(bytes: Seq<u8>) -> Seq<u8>
    decreases bytes.len(),
{
    if bytes.len() == 0 {
        Seq::empty()
    } else {
        hex_bytes(bytes.drop_last()) + seq![hex_digit(bytes.last() >> 4u8), hex_digit(bytes.last() & 0x0Fu8)]
    }
}

pub fn push_digest_hex(out: &mut Vec<u8>, digest: &[u8; 32])
    ensures
        final(out)@ == old(out)@ + hex_bytes(digest@),
{
    let mut i: usize = 0;
    assert(digest@.take(0) =~= Seq::<u8>::empty());
    assert(out@ =~= old(out)@ + hex_bytes(digest@.take(0)));
    while i < 32
        invariant
            i <= 32,
            digest@.len() == 32,
            out@ == old(out)@ + hex_bytes(digest@.take(i as int)),
        decreases 32 - i,
    {
        let byte = digest[i];
        assert(byte >> 4u8 < 16) by (bit_vector);
        assert(byte & 0x0Fu8 < 16) by (bit_vector);
        out.push(nibble_to_hex(byte >> 4));
        out.push(nibble_to_hex(byte & 0x0F));
        assert(digest@.take(i + 1).drop_last() =~= digest@.take(i as int));
        i = i + 1;
        assert(out@ =~= old(out)@ + hex_bytes(digest@.take(i as int)));
    }
    assert(digest@.take(32) =~= digest@);
}

/// The line printed for a file: the digest in hex, two spaces, the path,
/// CR LF.
pub open spec fn digest_line(digest: Seq<u8>, display_path: Seq<u8>) -> Seq<u8> {
    hex_bytes(digest) + seq![0x20u8, 0x20u8] + display_path + seq![0x0Du8, 0x0Au8]
}

/// Appends the bytes of `data`.
fn push_all(out: &mut Vec<u8>, data: &[u8])
    ensures
        final(out)@ == old(out)@ + data@,
{
    let mut i: usize = 0;
    while i < data.len()
        invariant
            i <= data@.len(),
            out@ == old(out)@ + data@.take(i as int),
        decreases data@.len() - i,
    {
        out.push(data[i]);
        i = i + 1;
        assert(out@ =~= old(out)@ + data@.take(i as int));
    }
    assert(data@.take(i as int) =~= data@);
}

/// The line that B3SUM prints for a file whose bytes the hasher absorbed.
pub fn print_digest(hasher: &DigestState, display_path: &[u8]) -> (r: Vec<u8>)
    ensures
        r@ == digest_line(blake3_digest(hasher.input()), display_path@),
{
    let digest = hasher.finalize();
    let mut line: Vec<u8> = Vec::new();
    push_digest_hex(&mut line, &digest);
    line.push(0x20);
    line.push(0x20);
    push_all(&mut line, display_path);
    line.push(0x0D);
    line.push(0x0A);
    assert(line@ =~= digest_line(blake3_digest(hasher.input()), display_path@));
    line
}

/// A file being hashed: the hasher and the path to print.
pub struct FileHashState {
    pub hash: DigestState,
    pub display_path: Vec<u8>,
}

impl FileHashState {
    /// Takes the next chunk of the file: an empty chunk ends the file and
    /// gives the digest line; any other chunk is fed to the hasher.
    pub fn absorb_chunk(&mut self, chunk: &[u8]) -> (r: Option<Vec<u8>>)
        ensures
            final(self).display_path@ == old(self).display_path@,
            chunk@.len() == 0 ==> final(self).hash.input() == old(self).hash.input() && (r matches Some(
                line,
            ) && line@ == digest_line(blake3_digest(old(self).hash.input()), old(self).display_path@)),
            chunk@.len() > 0 ==> final(self).hash.input() == old(self).hash.input() + chunk@
                && r is None,
    {
        if chunk.len() == 0 {
            return Some(print_digest(&self.hash, self.display_path.as_slice()));
        }
        self.hash.update(chunk);
        None
    }
}

/// A backslash.
pub open spec fn is_separator_byte(b: u8) -> bool {
    b == 0x5C
}

/// What B3SUM prints before the names that a wildcard matches: the path up
/// to its last backslash, else a drive prefix `X:`, else nothing.
pub open spec fn wildcard_prefix(path: Seq<u8>) -> Seq<u8> {
    let k = last_index_where(path, |b: u8| is_separator_byte(b));
    if k >= 0 {
        path.take(k + 1)
    } else if path.len() >= 2 && path[1] == 0x3A {
        path.take(2)
    } else {
        Seq::empty()
    }
}

pub fn wildcard_display_prefix(path: &[u8]) -> (r: Vec<u8>)
    ensures
        r@ == wildcard_prefix(path@),
{
    let mut i: usize = path.len();
    while i > 0
        invariant
            i <= path@.len(),
            forall|j: int| i <= j < path@.len() ==> path@[j] != 0x5C,
        decreases i,
    {
        if path[i - 1] == 0x5C {
            proof {
                crate::text::lemma_last_index_unique(path@, |b: u8| is_separator_byte(b), i - 1);
            }
            return vstd::slice::slice_to_vec(vstd::slice::slice_subrange(path, 0, i));
        }
        i = i - 1;
    }
    proof {
        crate::text::lemma_last_index_unique(path@, |b: u8| is_separator_byte(b), -1);
    }
    if path.len() >= 2 && path[1] == 0x3A {
        let r = vstd::slice::slice_to_vec(vstd::slice::slice_subrange(path, 0, 2));
        assert(r@ =~= path@.take(2));
        return r;
    }
    Vec::new()
}

} // verus!
