//! Fingerprints of files, paths and package trees.

use sha2::Digest;
use vstd::bytes::*;
use vstd::prelude::*;
use vstd::string::*;
use vstd::utf8::*;

use crate::observation::DiscoveryDiagnosticCode;
use crate::text;
use crate::text::{chars_of, lowered};

verus! {

/// A `sha2::Sha256`. Its generic definition cannot be declared to the verifier, so
/// that it stands behind this type.
#[verifier::external_body]
pub struct Sha256State {
    inner: sha2::Sha256,
}

/// The bytes that a `sha2::Sha256` has been fed with.
pub uninterp spec fn fed_bytes(hasher: Sha256State) -> Seq<u8>;

/// The SHA-256 digest of bytes, which `sha2::Sha256` computes.
pub uninterp spec fn sha256(bytes: Seq<u8>) -> Seq<u8>;

/// Calls `sha2::Sha256::new`: a hasher that has been fed with nothing.
#[verifier::external_body]
pub(crate) fn sha256_new() -> (r: Sha256State)
    ensures
        fed_bytes(r) == Seq::<u8>::empty(),
{
    Sha256State { inner: sha2::Sha256::new() }
}

/// Calls `sha2::Sha256::update`, which feeds the hasher with more bytes.
#[verifier::external_body]
pub(crate) fn sha256_update(hasher: &mut Sha256State, bytes: &[u8])
    ensures
        fed_bytes(*final(hasher)) == fed_bytes(*old(hasher)) + bytes@,
{
    hasher.inner.update(bytes)
}

/// Calls `sha2::Sha256::finalize`, which gives the digest of all the bytes that
/// the hasher was fed with. A digest has 32 bytes.
#[verifier::external_body]
pub(crate) fn sha256_finish(hasher: Sha256State) -> (r: Vec<u8>)
    ensures
        r@ == sha256(fed_bytes(hasher)),
        r@.len() == 32,
{
    hasher.inner.finalize().to_vec()
}

/// A hexadecimal digit in lower case.
pub open spec fn lower_hex(d: nat) -> char {
    if d < 10 {
        (48 + d) as char
    } else {
        (87 + d) as char
    }
}

/// Bytes as hexadecimal digits, two for each.
pub open spec fn hex_text(bytes: Seq<u8>) -> Seq<char>
    decreases bytes.len(),
{
    if bytes.len() == 0 {
        seq![]
    } else {
        hex_text(bytes.drop_last()).push(lower_hex((bytes.last() / 16) as nat)).push(
            lower_hex((bytes.last() % 16) as nat),
        )
    }
}

fn lower_hex_char(d: u8) -> (r: char)
    requires
        d < 16,
    ensures
        r == lower_hex(d as nat),
{
    if d < 10 {
        (48 + d) as char
    } else {
        (87 + d) as char
    }
}

pub fn sha256_hex(bytes: &[u8]) -> (r: String)
    ensures
        r@ == hex_text(bytes@),
{
    let mut out = String::new();
    let mut i: usize = 0;
    assert(bytes@.take(0) =~= seq![]);
    assert(out@ =~= seq![]);
    while i < bytes.len()
        invariant
            i <= bytes@.len(),
            out@ == hex_text(bytes@.take(i as int)),
        decreases bytes@.len() - i,
    {
        let b = bytes[i];
        proof {
            assert(bytes@.take(i + 1).drop_last() =~= bytes@.take(i as int));
            assert(bytes@.take(i + 1).last() == b);
        }
        out.push(lower_hex_char(b / 16));
        out.push(lower_hex_char(b % 16));
        i += 1;
    }
    assert(bytes@.take(i as int) =~= bytes@);
    out
}

/// The hexadecimal digest of bytes.
pub open spec fn digest_text(bytes: Seq<u8>) -> Seq<char> {
    hex_text(sha256(bytes))
}

/// Hexadecimal digits can be read back: different bytes are written differently.
pub proof fn law_hex_differs(a: Seq<u8>, b: Seq<u8>)
    requires
        hex_text(a) == hex_text(b),
    ensures
        a == b,
    decreases a.len(),
{
    lemma_hex_len(a);
    lemma_hex_len(b);
    if a.len() > 0 {
        let x = hex_text(a);
        let y = hex_text(b);
        assert(x[x.len() - 2] == lower_hex((a.last() / 16) as nat));
        assert(y[y.len() - 2] == lower_hex((b.last() / 16) as nat));
        assert(x[x.len() - 1] == lower_hex((a.last() % 16) as nat));
        assert(y[y.len() - 1] == lower_hex((b.last() % 16) as nat));
        assert(a.last() / 16 == b.last() / 16);
        assert(a.last() % 16 == b.last() % 16);
        assert(a.last() == b.last());
        assert(x.drop_last().drop_last() =~= hex_text(a.drop_last()));
        assert(y.drop_last().drop_last() =~= hex_text(b.drop_last()));
        law_hex_differs(a.drop_last(), b.drop_last());
        assert(a =~= a.drop_last().push(a.last()));
        assert(b =~= b.drop_last().push(b.last()));
    } else {
        assert(a =~= b);
    }
}

/// Whether all characters are hexadecimal digits in lower case.
pub open spec fn is_lower_hex(s: Seq<char>) -> bool {
    forall|i: int|
        0 <= i < s.len() ==> text::is_digit(#[trigger] s[i]) || 'a' <= s[i] <= 'f'
}

/// Bytes are written with two digits each, in lower case.
pub proof fn law_hex_digits(bytes: Seq<u8>)
    ensures
        hex_text(bytes).len() == 2 * bytes.len(),
        is_lower_hex(hex_text(bytes)),
    decreases bytes.len(),
{
    if bytes.len() > 0 {
        law_hex_digits(bytes.drop_last());
    }
}

proof fn lemma_hex_len(a: Seq<u8>)
    ensures
        hex_text(a).len() == 2 * a.len(),
    decreases a.len(),
{
    if a.len() > 0 {
        lemma_hex_len(a.drop_last());
    }
}

/// A path with slashes only and in lower case.
pub open spec fn normalized_path(path: Seq<char>) -> Seq<char> {
    text::lower(with_slashes(path))
}

/// A path with slashes only.
pub open spec fn with_slashes(path: Seq<char>) -> Seq<char> {
    Seq::new(
        path.len(),
        |i: int|
            if path[i] == '\\' {
                '/'
            } else {
                path[i]
            },
    )
}

fn slashed(path: &str) -> (r: String)
    ensures
        r@ == with_slashes(path@),
{
    let cs = chars_of(path);
    let mut out = String::new();
    let mut i: usize = 0;
    assert(out@ =~= with_slashes(path@).take(0));
    while i < cs.len()
        invariant
            i <= cs@.len(),
            cs@ == path@,
            out@ == with_slashes(path@).take(i as int),
        decreases cs@.len() - i,
    {
        out.push(
            if cs[i] == '\\' {
                '/'
            } else {
                cs[i]
            },
        );
        i += 1;
        assert(out@ =~= with_slashes(path@).take(i as int));
    }
    assert(with_slashes(path@).take(i as int) =~= with_slashes(path@));
    out
}

/// What a path is told by when paths are compared. Where paths are not
/// case-sensitive it is in lower case.
pub open spec fn path_key(path: Seq<char>, windows: bool) -> Seq<char> {
    if windows {
        normalized_path(path)
    } else {
        with_slashes(path)
    }
}

pub fn normalized_path_key(path: &str, windows: bool) -> (r: String)
    ensures
        r@ == path_key(path@, windows),
{
    let s = slashed(path);
    if windows {
        lowered(s.as_str())
    } else {
        s
    }
}

/// The digest of a path.
pub open spec fn path_identity(path: Seq<char>) -> Seq<char> {
    digest_text(encode_utf8(normalized_path(path)))
}

pub fn stable_path_identity(path: &str) -> (r: String)
    ensures
        r@ == path_identity(path@),
{
    let normalized = lowered(slashed(path).as_str());
    let mut hasher = sha256_new();
    sha256_update(&mut hasher, normalized.as_str().as_bytes());
    assert(fed_bytes(hasher) =~= encode_utf8(normalized@));
    let digest = sha256_finish(hasher);
    sha256_hex(digest.as_slice())
}

/// What the system says of an open file.
#[derive(Clone, Copy, Debug, PartialEq, Eq, Structural)]
pub struct FileSnapshot {
    pub len: u64,
    /// When it was modified, as a number of nanoseconds since some start.
    pub modified: u128,
    pub identity: Option<FileIdentity>,
}

/// By what the system tells a file from others, where it has such a thing.
#[derive(Clone, Copy, Debug, PartialEq, Eq, Structural)]
pub struct FileIdentity {
    pub volume_serial_number: u32,
    pub file_index_high: u32,
    pub file_index_low: u32,
    pub creation_time_high: u32,
    pub creation_time_low: u32,
}

/// The bytes that stand for a file apart from its content.
pub open spec fn private_identity(s: FileSnapshot) -> Seq<u8> {
    spec_u64_to_le_bytes(s.len) + match s.identity {
        Some(id) => spec_u32_to_le_bytes(id.volume_serial_number) + spec_u32_to_le_bytes(
            id.file_index_high,
        ) + spec_u32_to_le_bytes(id.file_index_low) + spec_u32_to_le_bytes(id.creation_time_high)
            + spec_u32_to_le_bytes(id.creation_time_low),
        None => seq![],
    }
}

/// The digest of a file's content, with its length before it.
pub open spec fn content_digest(len: u64, content: Seq<u8>) -> Seq<char> {
    digest_text(spec_u64_to_le_bytes(len) + content)
}

/// The digest of a file: what the system tells it by, and its content. When it was
/// modified does not matter.
pub open spec fn file_identity(s: FileSnapshot, content: Seq<u8>) -> Seq<char> {
    digest_text(
        encode_utf8("agenttalk-windows-executable-identity-v2"@) + private_identity(s)
            + encode_utf8(content_digest(s.len, content)),
    )
}

/// What a file is told by.
#[derive(Debug)]
pub struct StableFileFingerprint {
    pub stable_identity: String,
    pub content_sha256: String,
}

impl Clone for StableFileFingerprint {
    fn clone(&self) -> (r: Self)
        ensures
            r.stable_identity@ == self.stable_identity@,
            r.content_sha256@ == self.content_sha256@,
    {
        StableFileFingerprint {
            stable_identity: self.stable_identity.clone(),
            content_sha256: self.content_sha256.clone(),
        }
    }
}

/// Takes the fingerprint of a file whose content is read piece by piece.
pub struct FileHash {
    before: FileSnapshot,
    hasher: Sha256State,
    total: u64,
    content: Ghost<Seq<u8>>,
}

impl FileHash {
    /// The content that was read so far.
    pub closed spec fn content(&self) -> Seq<u8> {
        self.content@
    }

    pub closed spec fn snapshot(&self) -> FileSnapshot {
        self.before
    }

    pub closed spec fn valid(&self) -> bool {
        &&& self.total == self.content@.len()
        &&& self.total <= self.before.len
        &&& fed_bytes(self.hasher) == spec_u64_to_le_bytes(self.before.len) + self.content@
    }

    /// Begins with what the system says of the file.
    pub fn new(before: FileSnapshot) -> (r: Self)
        ensures
            r.valid(),
            r.snapshot() == before,
            r.content() == Seq::<u8>::empty(),
    {
        let mut hasher = sha256_new();
        let len = u64_to_le_bytes(before.len);
        sha256_update(&mut hasher, len.as_slice());
        assert(fed_bytes(hasher) =~= spec_u64_to_le_bytes(before.len) + Seq::<u8>::empty());
        FileHash { before, hasher, total: 0, content: Ghost(Seq::empty()) }
    }

    /// How many bytes are to be read into a buffer. Nothing is read when the whole
    /// content has been read.
    pub fn wants(&self, buffer: usize) -> (r: usize)
        requires
            self.valid(),
        ensures
            r == if buffer <= self.snapshot().len - self.content().len() {
                buffer as int
            } else {
                self.snapshot().len - self.content().len()
            },
    {
        let left = self.before.len - self.total;
        if buffer as u64 <= left {
            buffer
        } else {
            left as usize
        }
    }

    /// Takes the next bytes.
    pub fn feed(&mut self, bytes: &[u8])
        requires
            old(self).valid(),
            old(self).content().len() + bytes@.len() <= old(self).snapshot().len,
        ensures
            final(self).valid(),
            final(self).snapshot() == old(self).snapshot(),
            final(self).content() == old(self).content() + bytes@,
    {
        let ghost before = self.content@;
        sha256_update(&mut self.hasher, bytes);
        self.total = self.total + bytes.len() as u64;
        self.content = Ghost(before + bytes@);
        assert(fed_bytes(self.hasher) =~= spec_u64_to_le_bytes(self.before.len) + self.content@);
    }

    /// The error when reading has failed or time is over. `after` is what the
    /// system says of the file now, if it says anything.
    pub fn failed(&self, code: DiscoveryDiagnosticCode, after: Option<FileSnapshot>) -> (r:
        DiscoveryDiagnosticCode)
        ensures
            r == if code == DiscoveryDiagnosticCode::FingerprintUnavailable || (after is Some
                && after != Some(self.snapshot())) {
                DiscoveryDiagnosticCode::FingerprintChanged
            } else {
                code
            },
    {
        if code == DiscoveryDiagnosticCode::FingerprintUnavailable {
            return DiscoveryDiagnosticCode::FingerprintChanged;
        }
        match after {
            Some(s) => if s == self.before {
                code
            } else {
                DiscoveryDiagnosticCode::FingerprintChanged
            },
            None => code,
        }
    }

    /// Ends with what the system says of the file now. A file that was not read
    /// whole, or that has changed, has no fingerprint.
    pub fn finish(self, after: Result<FileSnapshot, DiscoveryDiagnosticCode>) -> (r: Result<
        StableFileFingerprint,
        DiscoveryDiagnosticCode,
    >)
        requires
            self.valid(),
        ensures
            match r {
                Ok(f) => {
                    &&& self.content().len() == self.snapshot().len
                    &&& after == Ok::<FileSnapshot, DiscoveryDiagnosticCode>(self.snapshot())
                    &&& f.content_sha256@ == content_digest(self.snapshot().len, self.content())
                    &&& f.stable_identity@ == file_identity(self.snapshot(), self.content())
                },
                Err(code) => if self.content().len() != self.snapshot().len {
                    code == DiscoveryDiagnosticCode::FingerprintChanged
                } else {
                    match after {
                        Err(e) => code == e,
                        Ok(s) => s != self.snapshot() && code
                            == DiscoveryDiagnosticCode::FingerprintChanged,
                    }
                },
            },
    {
        if self.total != self.before.len {
            return Err(DiscoveryDiagnosticCode::FingerprintChanged);
        }
        match after {
            Err(e) => {
                return Err(e);
            },
            Ok(s) => {
                if s != self.before {
                    return Err(DiscoveryDiagnosticCode::FingerprintChanged);
                }
            },
        }
        let before = self.before;
        let content_sha256 = sha256_hex(sha256_finish(self.hasher).as_slice());
        let mut hasher = sha256_new();
        sha256_update(&mut hasher, "agenttalk-windows-executable-identity-v2".as_bytes());
        let ghost label = encode_utf8("agenttalk-windows-executable-identity-v2"@);
        assert(fed_bytes(hasher) =~= label);
        let len = u64_to_le_bytes(before.len);
        sha256_update(&mut hasher, len.as_slice());
        if let Some(id) = before.identity {
            let a = u32_to_le_bytes(id.volume_serial_number);
            sha256_update(&mut hasher, a.as_slice());
            let b = u32_to_le_bytes(id.file_index_high);
            sha256_update(&mut hasher, b.as_slice());
            let c = u32_to_le_bytes(id.file_index_low);
            sha256_update(&mut hasher, c.as_slice());
            let d = u32_to_le_bytes(id.creation_time_high);
            sha256_update(&mut hasher, d.as_slice());
            let e = u32_to_le_bytes(id.creation_time_low);
            sha256_update(&mut hasher, e.as_slice());
        }
        assert(fed_bytes(hasher) =~= label + private_identity(before));
        sha256_update(&mut hasher, content_sha256.as_str().as_bytes());
        let stable_identity = sha256_hex(sha256_finish(hasher).as_slice());
        Ok(StableFileFingerprint { stable_identity, content_sha256 })
    }
}

/// When a file was modified does not change its fingerprint.
pub proof fn law_fingerprint_ignores_time(a: FileSnapshot, b: FileSnapshot, content: Seq<u8>)
    requires
        a.len == b.len,
        a.identity == b.identity,
    ensures
        file_identity(a, content) == file_identity(b, content),
{
}

/// Two files of one length whose contents differ anywhere, at the end too, have the
/// same content digest only if SHA-256 gives the two different inputs that they make
/// the same digest.
pub proof fn law_content_is_covered(len: u64, a: Seq<u8>, b: Seq<u8>)
    requires
        a != b,
        content_digest(len, a) == content_digest(len, b),
    ensures
        spec_u64_to_le_bytes(len) + a != spec_u64_to_le_bytes(len) + b,
        sha256(spec_u64_to_le_bytes(len) + a) == sha256(spec_u64_to_le_bytes(len) + b),
{
    let x = spec_u64_to_le_bytes(len) + a;
    let y = spec_u64_to_le_bytes(len) + b;
    law_hex_differs(sha256(x), sha256(y));
    let n = spec_u64_to_le_bytes(len).len() as int;
    assert(a =~= x.skip(n));
    assert(b =~= y.skip(n));
}

} // verus!
