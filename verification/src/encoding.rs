//! Chunks, the codecs that render them as bytes, and the content key under
//! which a chunk is stored.
//!
//! An encoded chunk is a four-byte header followed by a body. The header holds
//! the codec's tag and the payload's length as a 24-bit big-endian number. The
//! body is the payload itself (`Codec::Raw`) or its run-length packing
//! (`Codec::RunLength`).

use sha2::Digest;
use vstd::prelude::*;
use vstd::string::*;

verus! {

/// The longest payload a chunk header can describe.
pub const MAX_PAYLOAD_LEN: usize = 0xFF_FFFF;

/// The number of bytes in the header of an encoded chunk.
pub const HEADER_LEN: usize = 4;

/// The longest run that one count byte can describe.
pub const MAX_RUN: usize = 255;

/// An encoding strategy for chunk payloads.
#[derive(Clone, Copy, Debug, PartialEq, Eq, Structural)]
pub enum Codec {
    /// The payload is stored verbatim.
    Raw,
    /// Runs of equal bytes are stored as a count and the byte.
    RunLength,
}

/// Why a chunk could not be rendered in a codec.
#[derive(Clone, Copy, Debug, PartialEq, Eq, Structural)]
pub enum EncodingError {
    /// The payload is longer than `MAX_PAYLOAD_LEN`.
    PayloadTooLarge,
}

/// Why bytes could not be read back as a chunk.
#[derive(Clone, Copy, Debug, PartialEq, Eq, Structural)]
pub enum DecodingError {
    /// The input is shorter than a header.
    Truncated,
    /// The header names another codec than the one asked for.
    CodecMismatch,
    /// The body is not a sequence of (count, byte) pairs with counts of at least one.
    Malformed,
    /// The body does not hold as many payload bytes as the header declares.
    LengthMismatch,
}

impl Codec {
    /// The label of the codec as a sequence of characters. A label never
    /// changes once chunks have been written under it.
    pub open spec fn label_of(self) -> Seq<char> {
        match self {
            Codec::Raw => seq!['r', 'a', 'w'],
            Codec::RunLength => seq!['r', 'l', 'e'],
        }
    }

    /// The byte that marks the codec in the header of an encoded chunk.
    pub open spec fn tag_of(self) -> u8 {
        match self {
            Codec::Raw => 0u8,
            Codec::RunLength => 1u8,
        }
    }

    /// The stable label of the codec, as used in logs and in content keys.
    pub fn label(&self) -> (label: &'static str)
        ensures
            label@ == self.label_of(),
    {
        proof {
            reveal_strlit("raw");
            reveal_strlit("rle");
        }
        match self {
            Codec::Raw => {
                "raw"
            },
            Codec::RunLength => {
                "rle"
            },
        }
    }

    /// The codec with this label, if there is one.
    pub fn from_label(label: &str) -> (codec: Option<Codec>)
        ensures
            match codec {
                Some(codec) => label@ == codec.label_of(),
                None => label@ != Codec::Raw.label_of() && label@ != Codec::RunLength.label_of(),
            },
    {
        let given = String::from_str(label);
        if given == String::from_str(Codec::Raw.label()) {
            Some(Codec::Raw)
        } else if given == String::from_str(Codec::RunLength.label()) {
            Some(Codec::RunLength)
        } else {
            None
        }
    }

    /// The header byte of the codec.
    pub fn tag(&self) -> (tag: u8)
        ensures
            tag == self.tag_of(),
    {
        match self {
            Codec::Raw => 0,
            Codec::RunLength => 1,
        }
    }
}

/// The number of bytes at the front of `s` that equal its first byte, counted
/// up to `MAX_RUN`.
pub open spec fn leading_run(s: Seq<u8>) -> nat
    decreases s.len(),
{
    if s.len() == 0 {
        0
    } else if s.len() == 1 || s[1] != s[0] {
        1
    } else {
        let rest = leading_run(s.drop_first());
        if rest >= MAX_RUN {
            MAX_RUN as nat
        } else {
            rest + 1
        }
    }
}

/// The run-length packing of `s`: for each maximal run of at most `MAX_RUN`
/// equal bytes, the length of the run and then the byte.
pub open spec fn packed(s: Seq<u8>) -> Seq<u8>
    decreases s.len(),
{
    let n = leading_run(s);
    if 1 <= n <= s.len() {
        seq![n as u8, s[0]] + packed(s.skip(n as int))
    } else {
        Seq::empty()
    }
}

/// Whether `body` is a sequence of (count, byte) pairs whose counts are at least one.
pub open spec fn well_packed(body: Seq<u8>) -> bool {
    &&& body.len() % 2 == 0
    &&& forall|i: int| 0 <= i < body.len() && i % 2 == 0 ==> #[trigger] body[i] != 0
}

/// The bytes that a sequence of (count, byte) pairs stands for.
pub open spec fn expanded(body: Seq<u8>) -> Seq<u8>
    decreases body.len(),
{
    if body.len() < 2 {
        Seq::empty()
    } else {
        Seq::new(body[0] as nat, |i: int| body[1]) + expanded(body.skip(2))
    }
}

/// The header of an encoded chunk whose payload has `len` bytes.
pub open spec fn header(codec: Codec, len: nat) -> Seq<u8> {
    seq![
        codec.tag_of(),
        (len / 0x1_0000) as u8,
        ((len / 0x100) % 0x100) as u8,
        (len % 0x100) as u8,
    ]
}

/// The payload length that a header declares.
pub open spec fn declared_len(bytes: Seq<u8>) -> nat {
    (bytes[1] as nat) * 0x1_0000 + (bytes[2] as nat) * 0x100 + (bytes[3] as nat)
}

/// The body of an encoded chunk.
pub open spec fn body_of(payload: Seq<u8>, codec: Codec) -> Seq<u8> {
    match codec {
        Codec::Raw => payload,
        Codec::RunLength => packed(payload),
    }
}

/// The encoding of `payload` under `codec`, for a payload of at most
/// `MAX_PAYLOAD_LEN` bytes.
pub open spec fn encoded(payload: Seq<u8>, codec: Codec) -> Seq<u8> {
    header(codec, payload.len()) + body_of(payload, codec)
}

/// What `bytes` decode to under `codec`.
pub open spec fn decoded(bytes: Seq<u8>, codec: Codec) -> Result<Seq<u8>, DecodingError> {
    if bytes.len() < HEADER_LEN {
        Err(DecodingError::Truncated)
    } else if bytes[0] != codec.tag_of() {
        Err(DecodingError::CodecMismatch)
    } else {
        let body = bytes.skip(HEADER_LEN as int);
        match codec {
            Codec::Raw => if body.len() == declared_len(bytes) {
                Ok(body)
            } else {
                Err(DecodingError::LengthMismatch)
            },
            Codec::RunLength => if !well_packed(body) {
                Err(DecodingError::Malformed)
            } else if expanded(body).len() != declared_len(bytes) {
                Err(DecodingError::LengthMismatch)
            } else {
                Ok(expanded(body))
            },
        }
    }
}

/// A leading run is at least one byte of a non-empty sequence, at most
/// `MAX_RUN`, and all of its bytes equal the first.
pub proof fn lemma_leading_run_bounds(s: Seq<u8>)
    requires
        s.len() > 0,
    ensures
        1 <= leading_run(s) <= s.len(),
        leading_run(s) <= MAX_RUN,
        forall|k: int| 0 <= k < leading_run(s) ==> #[trigger] s[k] == s[0],
    decreases s.len(),
{
    if s.len() > 1 && s[1] == s[0] {
        let t = s.drop_first();
        lemma_leading_run_bounds(t);
        assert forall|k: int| 0 <= k < leading_run(s) implies #[trigger] s[k] == s[0] by {
            if k > 0 {
                assert(s[k] == t[k - 1]);
            }
        }
    }
}

/// A leading run is no shorter than any front of equal bytes that fits in `MAX_RUN`.
proof fn lemma_leading_run_covers(s: Seq<u8>, n: nat)
    requires
        1 <= n <= s.len(),
        n <= MAX_RUN,
        forall|k: int| 0 <= k < n ==> #[trigger] s[k] == s[0],
    ensures
        leading_run(s) >= n,
    decreases s.len(),
{
    if n >= 2 {
        lemma_leading_run_covers(s.drop_first(), (n - 1) as nat);
    }
}

/// A front of equal bytes that ends at the end of the sequence, at another
/// byte, or at `MAX_RUN`, is the leading run.
proof fn lemma_leading_run_is(s: Seq<u8>, n: nat)
    requires
        1 <= n <= s.len(),
        n <= MAX_RUN,
        forall|k: int| 0 <= k < n ==> #[trigger] s[k] == s[0],
        n == MAX_RUN || n == s.len() || s[n as int] != s[0],
    ensures
        leading_run(s) == n,
{
    lemma_leading_run_bounds(s);
    lemma_leading_run_covers(s, n);
}

/// Packing yields pairs with counts of at least one.
pub proof fn lemma_packed_is_well_packed(s: Seq<u8>)
    ensures
        well_packed(packed(s)),
    decreases s.len(),
{
    if s.len() > 0 {
        lemma_leading_run_bounds(s);
        lemma_packed_is_well_packed(s.skip(leading_run(s) as int));
    }
}

/// Expanding a packing gives the packed bytes back.
pub proof fn lemma_expanded_packed(s: Seq<u8>)
    ensures
        expanded(packed(s)) == s,
    decreases s.len(),
{
    if s.len() > 0 {
        lemma_leading_run_bounds(s);
        let n = leading_run(s);
        let tail = s.skip(n as int);
        lemma_expanded_packed(tail);
        let p = packed(s);
        assert(p.skip(2) =~= packed(tail));
    }
}

/// Encoding and then decoding under the same codec gives the payload back,
/// for every payload that a header can describe.
pub proof fn lemma_round_trip(payload: Seq<u8>, codec: Codec)
    requires
        payload.len() <= MAX_PAYLOAD_LEN,
    ensures
        decoded(encoded(payload, codec), codec) == Ok::<Seq<u8>, DecodingError>(payload),
{
    let bytes = encoded(payload, codec);
    let body = body_of(payload, codec);
    assert(bytes.skip(HEADER_LEN as int) =~= body);
    match codec {
        Codec::Raw => {},
        Codec::RunLength => {
            lemma_packed_is_well_packed(payload);
            lemma_expanded_packed(payload);
        },
    }
}

/// Bytes encoded under one codec are refused under any other.
pub proof fn lemma_other_codec_refused(payload: Seq<u8>, written: Codec, asked: Codec)
    requires
        written != asked,
    ensures
        decoded(encoded(payload, written), asked) == Err::<Seq<u8>, DecodingError>(
            DecodingError::CodecMismatch,
        ),
{
}

/// An immutable unit of archived payload.
#[derive(Clone, Debug, PartialEq, Eq)]
pub struct Chunk {
    payload: Vec<u8>,
}

impl View for Chunk {
    type V = Seq<u8>;

    /// The payload of the chunk.
    closed spec fn view(&self) -> Seq<u8> {
        self.payload@
    }
}

/// Appends the run-length packing of `data` to `out`.
fn pack_into(data: &[u8], out: &mut Vec<u8>)
    ensures
        final(out)@ == old(out)@ + packed(data@),
{
    let len = data.len();
    let mut i: usize = 0;
    assert(data@.skip(0) =~= data@);
    while i < len
        invariant
            len == data@.len(),
            i <= len,
            out@ + packed(data@.skip(i as int)) == old(out)@ + packed(data@),
        decreases len - i,
    {
        let first = data[i];
        let mut n: usize = 1;
        while n < MAX_RUN && i + n < len && data[i + n] == first
            invariant
                len == data@.len(),
                i < len,
                first == data@[i as int],
                1 <= n <= MAX_RUN,
                i + n <= len,
                forall|k: int| 0 <= k < n ==> #[trigger] data@[i + k] == first,
            decreases len - i - n,
        {
            n = n + 1;
        }
        proof {
            let rest = data@.skip(i as int);
            assert forall|k: int| 0 <= k < n implies #[trigger] rest[k] == rest[0] by {
                assert(rest[k] == data@[i + k]);
            }
            lemma_leading_run_is(rest, n as nat);
            assert(rest.skip(n as int) =~= data@.skip(i + n));
        }
        out.push(n as u8);
        out.push(first);
        i = i + n;
    }
}

/// Whether `body` is a sequence of (count, byte) pairs with counts of at least one.
fn is_well_packed(body: &[u8]) -> (ok: bool)
    ensures
        ok == well_packed(body@),
{
    let len = body.len();
    if len % 2 != 0 {
        return false;
    }
    let mut i: usize = 0;
    while i < len
        invariant
            len == body@.len(),
            len % 2 == 0,
            i % 2 == 0,
            i <= len,
            forall|k: int| 0 <= k < i && k % 2 == 0 ==> #[trigger] body@[k] != 0,
        decreases len - i,
    {
        if body[i] == 0 {
            return false;
        }
        i = i + 2;
    }
    true
}

/// The length of an expansion is the sum of its parts.
proof fn lemma_expanded_step(body: Seq<u8>, i: int)
    requires
        0 <= i,
        i + 2 <= body.len(),
    ensures
        expanded(body.skip(i)) == Seq::new(body[i] as nat, |k: int| body[i + 1]) + expanded(
            body.skip(i + 2),
        ),
{
    let rest = body.skip(i);
    assert(rest.skip(2) =~= body.skip(i + 2));
}

/// Expands the (count, byte) pairs of `body`, giving up as soon as more than
/// `limit` bytes would come out.
fn expand(body: &[u8], limit: usize) -> (out: Option<Vec<u8>>)
    requires
        body@.len() % 2 == 0,
    ensures
        expanded(body@).len() <= limit ==> (out matches Some(bytes) && bytes@ == expanded(body@)),
        expanded(body@).len() > limit ==> out is None,
{
    let len = body.len();
    let mut out: Vec<u8> = Vec::new();
    let mut i: usize = 0;
    assert(body@.skip(0) =~= body@);
    while i < len
        invariant
            len == body@.len(),
            len % 2 == 0,
            i % 2 == 0,
            i <= len,
            out@.len() <= limit,
            out@ + expanded(body@.skip(i as int)) == expanded(body@),
        decreases len - i,
    {
        let count = body[i] as usize;
        let value = body[i + 1];
        proof {
            lemma_expanded_step(body@, i as int);
        }
        if count > limit - out.len() {
            return None;
        }
        let ghost before = out@;
        let mut j: usize = 0;
        while j < count
            invariant
                j <= count,
                before.len() + count <= limit,
                out@ == before + Seq::new(j as nat, |k: int| value),
            decreases count - j,
        {
            out.push(value);
            j = j + 1;
        }
        i = i + 2;
    }
    Some(out)
}

impl Chunk {
    /// A chunk that holds `payload`.
    pub fn new(payload: Vec<u8>) -> (chunk: Chunk)
        ensures
            chunk@ == payload@,
    {
        Chunk { payload }
    }

    /// The payload of the chunk.
    pub fn payload(&self) -> (payload: &Vec<u8>)
        ensures
            payload@ == self@,
    {
        &self.payload
    }

    /// Renders the chunk in `codec`. Fails exactly when the payload is longer
    /// than a header can describe.
    pub fn serialize(&self, codec: Codec) -> (result: Result<Vec<u8>, EncodingError>)
        ensures
            self@.len() <= MAX_PAYLOAD_LEN ==> (result matches Ok(bytes) && bytes@ == encoded(
                self@,
                codec,
            )),
            self@.len() > MAX_PAYLOAD_LEN ==> result == Err::<Vec<u8>, EncodingError>(
                EncodingError::PayloadTooLarge,
            ),
    {
        let len = self.payload.len();
        if len > MAX_PAYLOAD_LEN {
            return Err(EncodingError::PayloadTooLarge);
        }
        let mut out: Vec<u8> = Vec::new();
        out.push(codec.tag());
        out.push((len / 0x1_0000) as u8);
        out.push(((len / 0x100) % 0x100) as u8);
        out.push((len % 0x100) as u8);
        match codec {
            Codec::Raw => {
                let mut i: usize = 0;
                while i < len
                    invariant
                        len == self.payload@.len(),
                        i <= len,
                        out@ == header(codec, self@.len()) + self.payload@.take(i as int),
                    decreases len - i,
                {
                    out.push(self.payload[i]);
                    i = i + 1;
                }
            },
            Codec::RunLength => {
                pack_into(self.payload.as_slice(), &mut out);
            },
        }
        Ok(out)
    }

    /// Reads a chunk back from bytes that were written under `codec`. Fails
    /// on input that is no encoding under `codec`, and says why.
    pub fn deserialize(bytes: &[u8], codec: Codec) -> (result: Result<Chunk, DecodingError>)
        ensures
            match decoded(bytes@, codec) {
                Ok(payload) => result matches Ok(chunk) && chunk@ == payload,
                Err(e) => result == Err::<Chunk, DecodingError>(e),
            },
    {
        let len = bytes.len();
        if len < HEADER_LEN {
            return Err(DecodingError::Truncated);
        }
        if bytes[0] != codec.tag() {
            return Err(DecodingError::CodecMismatch);
        }
        let declared: usize = (bytes[1] as usize) * 0x1_0000 + (bytes[2] as usize) * 0x100 + (
        bytes[3] as usize);
        let body = vstd::slice::slice_subrange(bytes, HEADER_LEN, len);
        match codec {
            Codec::Raw => {
                if body.len() != declared {
                    return Err(DecodingError::LengthMismatch);
                }
                let payload = vstd::slice::slice_to_vec(body);
                Ok(Chunk { payload })
            },
            Codec::RunLength => {
                if !is_well_packed(body) {
                    return Err(DecodingError::Malformed);
                }
                match expand(body, declared) {
                    None => Err(DecodingError::LengthMismatch),
                    Some(payload) => {
                        if payload.len() != declared {
                            Err(DecodingError::LengthMismatch)
                        } else {
                            Ok(Chunk { payload })
                        }
                    },
                }
            },
        }
    }
}

/// The SHA-256 digest of `data`.
pub uninterp spec fn sha256(data: Seq<u8>) -> Seq<u8>;

/// The number of bytes in a SHA-256 digest.
pub const DIGEST_LEN: usize = 32;

/// Computes the SHA-256 digest of `data` with `sha2::Sha256::digest`. The
/// digest is a function of the data alone and has `DIGEST_LEN` bytes; what it
/// is on given data is not stated here.
#[verifier::external_body]
fn sha256_digest(data: &[u8]) -> (digest: Vec<u8>)
    ensures
        digest@ == sha256(data@),
        digest@.len() == DIGEST_LEN,
{
    sha2::Sha256::digest(data).to_vec()
}

/// The lower-case hexadecimal digit for `n`, for `n` below sixteen.
pub open spec fn hex_digit(n: u8) -> char {
    "0123456789abcdef"@[n as int]
}

/// The lower-case hexadecimal rendering of `bytes`, two digits for each byte.
pub open spec fn hex(bytes: Seq<u8>) -> Seq<char> {
    Seq::new(
        2 * bytes.len(),
        |i: int|
            if i % 2 == 0 {
                hex_digit(bytes[i / 2] / 16)
            } else {
                hex_digit(bytes[i / 2] % 16)
            },
    )
}

/// The content key for a codec and the digest of a payload: the codec's
/// label, a hyphen, and the digest in hexadecimal.
pub open spec fn key_from_digest(codec: Codec, digest: Seq<u8>) -> Seq<char> {
    codec.label_of() + seq!['-'] + hex(digest)
}

/// The content key of a payload under a codec.
pub open spec fn key_of(payload: Seq<u8>, codec: Codec) -> Seq<char> {
    key_from_digest(codec, sha256(payload))
}

/// Different numbers below sixteen have different hexadecimal digits.
proof fn lemma_hex_digit_injective(a: u8, b: u8)
    requires
        a < 16,
        b < 16,
        hex_digit(a) == hex_digit(b),
    ensures
        a == b,
{
    reveal_strlit("0123456789abcdef");
}

/// Different byte sequences have different hexadecimal renderings.
pub proof fn lemma_hex_injective(a: Seq<u8>, b: Seq<u8>)
    requires
        hex(a) == hex(b),
    ensures
        a == b,
{
    assert(hex(a).len() == 2 * a.len());
    assert forall|j: int| 0 <= j < a.len() implies a[j] == b[j] by {
        let even = 2 * j;
        let odd = 2 * j + 1;
        assert(hex(a)[even] == hex_digit(a[j] / 16));
        assert(hex(a)[odd] == hex_digit(a[j] % 16));
        lemma_hex_digit_injective(a[j] / 16, b[j] / 16);
        lemma_hex_digit_injective(a[j] % 16, b[j] % 16);
    }
}

/// Two content keys are equal exactly when the codecs are equal and the
/// payloads have the same digest. So equal payloads under one codec share a
/// key, and keys under different codecs always differ.
pub proof fn lemma_key_identifies(
    payload: Seq<u8>,
    codec: Codec,
    other_payload: Seq<u8>,
    other_codec: Codec,
)
    ensures
        key_of(payload, codec) == key_of(other_payload, other_codec) <==> (codec == other_codec
            && sha256(payload) == sha256(other_payload)),
        (codec == other_codec && payload == other_payload) ==> key_of(payload, codec) == key_of(
            other_payload,
            other_codec,
        ),
{
    let key = key_of(payload, codec);
    let other_key = key_of(other_payload, other_codec);
    if key == other_key {
        assert(key[1] == other_key[1]);
        assert(hex(sha256(payload)) =~= key.skip(4));
        assert(hex(sha256(other_payload)) =~= other_key.skip(4));
        lemma_hex_injective(sha256(payload), sha256(other_payload));
    }
}

/// Appends the hexadecimal digit for `n` to `out`.
fn push_hex_digit(out: &mut String, n: u8)
    requires
        n < 16,
    ensures
        final(out)@ == old(out)@.push(hex_digit(n)),
{
    let digits = "0123456789abcdef";
    proof {
        reveal_strlit("0123456789abcdef");
    }
    let at = n as usize;
    let digit = digits.substring_char(at, at + 1);
    out.append(digit);
}

/// The content key for `codec` and the digest of a payload.
pub fn content_key(codec: Codec, digest: &[u8]) -> (key: String)
    ensures
        key@ == key_from_digest(codec, digest@),
{
    let mut key = String::from_str(codec.label());
    key.append("-");
    proof {
        reveal_strlit("-");
    }
    let ghost prefix = key@;
    let len = digest.len();
    let mut i: usize = 0;
    while i < len
        invariant
            len == digest@.len(),
            i <= len,
            prefix == codec.label_of() + seq!['-'],
            key@ == prefix + hex(digest@.take(i as int)),
        decreases len - i,
    {
        let byte = digest[i];
        push_hex_digit(&mut key, byte / 16);
        push_hex_digit(&mut key, byte % 16);
        i = i + 1;
    }
    key
}

impl Chunk {
    /// The content key under which the chunk is stored when written in
    /// `codec`: a function of the payload and the codec alone.
    pub fn key(&self, codec: Codec) -> (key: String)
        ensures
            key@ == key_of(self@, codec),
            key@.len() == 4 + 2 * DIGEST_LEN,
    {
        let digest = sha256_digest(self.payload.as_slice());
        content_key(codec, digest.as_slice())
    }
}

} // verus!
