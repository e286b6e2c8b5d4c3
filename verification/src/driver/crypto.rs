//! Encryption schemes supported by Discord's secure RTP negotiation.
//!
//! Every emitted packet is a 12-byte RTP header followed by a 16-byte
//! Poly1305 tag, the ciphertext, and (for two of the modes) a nonce suffix.
//! The three modes differ only in where the 24-byte `XSalsa20Poly1305`
//! nonce is taken from.
use vstd::prelude::*;

verus! {

use xsalsa20poly1305::XSalsa20Poly1305;
use xsalsa20poly1305::Key;
use xsalsa20poly1305::Nonce;
use xsalsa20poly1305::Tag;
use xsalsa20poly1305::aead::AeadInPlace;
use xsalsa20poly1305::aead::KeyInit;

/// Size of a Poly1305 tag in bytes.
pub const TAG_SIZE: usize = 16;

/// Size of an `XSalsa20Poly1305` nonce in bytes.
pub const NONCE_SIZE: usize = 24;

/// Size of an `XSalsa20Poly1305` key in bytes.
pub const KEY_SIZE: usize = 32;

/// Size of an RTP header with no CSRCs or extensions, as emitted here.
pub const RTP_HEADER_SIZE: usize = 12;

/// An authentication or size failure while encrypting or decrypting a
/// packet. Fatal to the session that met it, never to the process.
#[derive(Clone, Copy, Debug, PartialEq, Eq, Structural)]
pub struct CryptoError;

/// The ciphertext that `XSalsa20Poly1305` produces for a key, nonce and
/// message: the message XORed with the Salsa20 keystream. A function of its
/// three arguments alone.
pub uninterp spec fn enc_ct(key: Seq<u8>, nonce: Seq<u8>, msg: Seq<u8>) -> Seq<u8>;

/// The Poly1305 tag that `XSalsa20Poly1305` computes over the same
/// encryption. A function of its three arguments alone.
pub uninterp spec fn enc_tag(key: Seq<u8>, nonce: Seq<u8>, msg: Seq<u8>) -> Seq<u8>;

/// Relies on `XSalsa20Poly1305::encrypt_in_place_detached` with empty
/// associated data: XORs the Salsa20 keystream for this key and nonce into
/// `buf` (keeping its length) and returns the 16-byte Poly1305 tag. With
/// empty associated data the call cannot fail. The result depends on the
/// key, nonce and message alone.
#[verifier::external_body]
fn xsalsa_encrypt(key: &Vec<u8>, nonce: &Vec<u8>, buf: &mut Vec<u8>) -> (tag: Vec<u8>)
    requires
        key@.len() == KEY_SIZE,
        nonce@.len() == NONCE_SIZE,
    ensures
        final(buf)@ == enc_ct(key@, nonce@, old(buf)@),
        final(buf)@.len() == old(buf)@.len(),
        tag@ == enc_tag(key@, nonce@, old(buf)@),
        tag@.len() == TAG_SIZE,
{
    let cipher = XSalsa20Poly1305::new(Key::from_slice(key));
    let tag = cipher
        .encrypt_in_place_detached(Nonce::from_slice(nonce), &[], buf.as_mut_slice())
        .expect("encryption with empty associated data cannot fail");
    tag.as_slice().to_vec()
}

/// Relies on `XSalsa20Poly1305::decrypt_in_place_detached` with empty
/// associated data: recomputes the Poly1305 tag over `buf`, fails without
/// touching `buf` if it differs from `tag`, and otherwise XORs the same
/// keystream that encryption applied, recovering the message that
/// encrypted to `buf` under this key and nonce. The tag is 16 bytes and
/// the ciphertext is as long as the message, so byte-for-byte agreement
/// with an encryption of `m` means `buf` is that encryption.
#[verifier::external_body]
fn xsalsa_decrypt(key: &Vec<u8>, nonce: &Vec<u8>, buf: &mut Vec<u8>, tag: &Vec<u8>) -> (r: Result<
    (),
    CryptoError,
>)
    requires
        key@.len() == KEY_SIZE,
        nonce@.len() == NONCE_SIZE,
        tag@.len() == TAG_SIZE,
    ensures
        r is Err ==> final(buf)@ == old(buf)@,
        final(buf)@.len() == old(buf)@.len(),
        forall|m: Seq<u8>|
            #![trigger enc_ct(key@, nonce@, m)]
            m.len() == old(buf)@.len() && (forall|i: int|
                0 <= i < m.len() ==> old(buf)@[i] == enc_ct(key@, nonce@, m)[i]) && (forall|i: int|
                0 <= i < TAG_SIZE ==> tag@[i] == enc_tag(key@, nonce@, m)[i]) ==> r is Ok
                && final(buf)@ == m,
{
    let cipher = XSalsa20Poly1305::new(Key::from_slice(key));
    cipher
        .decrypt_in_place_detached(
            Nonce::from_slice(nonce),
            &[],
            buf.as_mut_slice(),
            Tag::from_slice(tag),
        )
        .map_err(|_| CryptoError)
}

/// Relies on `rand::Rng::fill` over `rand::thread_rng`: overwrites the
/// chosen range with bytes from the thread-local CSPRNG. Nothing is claimed
/// of the bytes themselves.
#[verifier::external_body]
fn fill_random_range(buf: &mut Vec<u8>, start: usize, end: usize)
    requires
        start <= end <= old(buf)@.len(),
    ensures
        final(buf)@.len() == old(buf)@.len(),
        forall|i: int|
            0 <= i < final(buf)@.len() && !(start <= i < end) ==> final(buf)@[i] == old(buf)@[i],
{
    rand::Rng::fill(&mut rand::thread_rng(), &mut buf[start..end]);
}

/// Relies on `rand::random`: draws one value from the thread-local CSPRNG.
/// Nothing can be promised of the value.
#[verifier::external_body]
pub fn random_u32() -> u32 {
    rand::random::<u32>()
}

/// The big-endian four-byte form of a 32-bit value.
pub open spec fn spec_u32_be(x: u32) -> Seq<u8> {
    seq![
        ((x >> 24) & 0xff) as u8,
        ((x >> 16) & 0xff) as u8,
        ((x >> 8) & 0xff) as u8,
        (x & 0xff) as u8,
    ]
}

/// The 32-bit value that four big-endian bytes spell.
pub open spec fn spec_be_u32(s: Seq<u8>) -> int
    recommends
        s.len() == 4,
{
    s[0] * 0x1000000 + s[1] * 0x10000 + s[2] * 0x100 + s[3]
}

/// Writing a counter as its four big-endian bytes and reading them back
/// yields the counter: the `Lite` nonce suffix parses as the counter it
/// was written from.
pub proof fn lemma_u32_be_round_trip(x: u32)
    ensures
        spec_be_u32(spec_u32_be(x)) == x,
{
    assert((x >> 24) & 0xff < 256 && (x >> 16) & 0xff < 256 && (x >> 8) & 0xff < 256 && x & 0xff
        < 256) by (bit_vector);
    assert(((x >> 24) & 0xff) * 0x1000000 + ((x >> 16) & 0xff) * 0x10000 + ((x >> 8) & 0xff)
        * 0x100 + (x & 0xff) == x) by (bit_vector);
    assert(spec_u32_be(x)[0] == ((x >> 24) & 0xff) as u8);
    assert(spec_u32_be(x)[1] == ((x >> 16) & 0xff) as u8);
    assert(spec_u32_be(x)[2] == ((x >> 8) & 0xff) as u8);
    assert(spec_u32_be(x)[3] == (x & 0xff) as u8);
}

/// The big-endian two-byte form of a 16-bit value.
pub open spec fn spec_u16_be(x: u16) -> Seq<u8> {
    seq![((x >> 8) & 0xff) as u8, (x & 0xff) as u8]
}

/// The 16-bit value that two big-endian bytes spell.
pub open spec fn spec_be_u16(s: Seq<u8>) -> int
    recommends
        s.len() == 2,
{
    s[0] * 0x100 + s[1]
}

/// Writing a sequence number as its two big-endian bytes and reading
/// them back yields the number.
pub proof fn lemma_u16_be_round_trip(x: u16)
    ensures
        spec_be_u16(spec_u16_be(x)) == x,
{
    assert((x >> 8) & 0xff < 256 && x & 0xff < 256) by (bit_vector);
    assert(((x >> 8) & 0xff) * 0x100 + (x & 0xff) == x) by (bit_vector);
    assert(spec_u16_be(x)[0] == ((x >> 8) & 0xff) as u8);
    assert(spec_u16_be(x)[1] == (x & 0xff) as u8);
}

/// Emits the two big-endian bytes of `x`.
pub fn u16_be_bytes(x: u16) -> (r: Vec<u8>)
    ensures
        r@ == spec_u16_be(x),
        r@.len() == 2,
{
    proof {
        assert((x >> 8) & 0xff < 256 && x & 0xff < 256) by (bit_vector);
    }
    let mut r: Vec<u8> = Vec::new();
    r.push(((x >> 8) & 0xff) as u8);
    r.push((x & 0xff) as u8);
    proof {
        assert(r@ =~= spec_u16_be(x));
    }
    r
}

/// Emits the four big-endian bytes of `x`.
pub fn u32_be_bytes(x: u32) -> (r: Vec<u8>)
    ensures
        r@ == spec_u32_be(x),
        r@.len() == 4,
{
    proof {
        assert((x >> 24) & 0xff < 256 && (x >> 16) & 0xff < 256 && (x >> 8) & 0xff < 256 && x
            & 0xff < 256) by (bit_vector);
    }
    let mut r: Vec<u8> = Vec::new();
    r.push(((x >> 24) & 0xff) as u8);
    r.push(((x >> 16) & 0xff) as u8);
    r.push(((x >> 8) & 0xff) as u8);
    r.push((x & 0xff) as u8);
    proof {
        assert(r@ =~= spec_u32_be(x));
    }
    r
}

/// Copies `src[lo..hi]` out into a fresh vector.
pub fn copy_range(src: &Vec<u8>, lo: usize, hi: usize) -> (r: Vec<u8>)
    requires
        lo <= hi <= src@.len(),
    ensures
        r@ == src@.subrange(lo as int, hi as int),
{
    let mut r: Vec<u8> = Vec::new();
    let mut i: usize = lo;
    while i < hi
        invariant
            lo <= i <= hi <= src@.len(),
            r@ == src@.subrange(lo as int, i as int),
        decreases hi - i,
    {
        r.push(src[i]);
        i += 1;
        proof {
            assert(r@ =~= src@.subrange(lo as int, i as int));
        }
    }
    r
}

/// Overwrites `dst[at..at + src.len()]` with `src`, leaving every other
/// byte as it was.
pub fn write_range(dst: &mut Vec<u8>, at: usize, src: &Vec<u8>)
    requires
        at + src@.len() <= old(dst)@.len(),
    ensures
        final(dst)@.len() == old(dst)@.len(),
        forall|k: int| 0 <= k < src@.len() ==> final(dst)@[at + k] == src@[k],
        forall|k: int|
            0 <= k < final(dst)@.len() && !(at <= k < at + src@.len()) ==> final(dst)@[k] == old(dst)@[k],
{
    let total = dst.len();
    let count = src.len();
    let mut j: usize = 0;
    while j < count
        invariant
            j <= count,
            count == src@.len(),
            at + count <= total,
            total == dst@.len(),
            dst@.len() == old(dst)@.len(),
            forall|k: int| 0 <= k < j ==> dst@[at + k] == src@[k],
            forall|k: int|
                0 <= k < dst@.len() && !(at <= k < at + j) ==> dst@[k] == old(dst)@[k],
        decreases count - j,
    {
        dst.set(at + j, src[j]);
        j += 1;
    }
}

/// Variants of the `XSalsa20Poly1305` encryption scheme.
#[derive(Clone, Copy, Debug, PartialEq, Eq, Structural)]
pub enum CryptoMode {
    /// The RTP header is used as the source of nonce bytes for the packet.
    ///
    /// Equivalent to a nonce of at most 48b (6B) at no extra packet overhead:
    /// the RTP sequence number and timestamp are the varying quantities.
    Normal,
    /// An additional random 24B suffix is used as the source of nonce bytes
    /// for the packet. This is regenerated randomly for each packet.
    Suffix,
    /// An additional 4B suffix is used as the source of nonce bytes for the
    /// packet. This nonce value increments by `1` with each packet.
    Lite,
}

impl CryptoMode {
    /// The number of bytes each nonce is stored as within a packet.
    pub open spec fn spec_nonce_size(self) -> nat {
        match self {
            CryptoMode::Normal => RTP_HEADER_SIZE as nat,
            CryptoMode::Suffix => NONCE_SIZE as nat,
            CryptoMode::Lite => 4,
        }
    }

    /// The number of scheme bytes after the payload.
    pub open spec fn spec_suffix_len(self) -> nat {
        match self {
            CryptoMode::Normal => 0,
            CryptoMode::Suffix | CryptoMode::Lite => self.spec_nonce_size(),
        }
    }

    /// The 24-byte nonce that a packet carries under this mode: the RTP
    /// header left-zero-padded for `Normal`, the suffix after the payload
    /// for the other two (left-zero-padded for `Lite`).
    pub open spec fn spec_nonce_of(self, p: Seq<u8>, payload_len: int) -> Seq<u8> {
        match self {
            CryptoMode::Normal => p.subrange(0, RTP_HEADER_SIZE as int) + Seq::new(
                12,
                |i: int| 0u8,
            ),
            CryptoMode::Suffix => p.subrange(
                RTP_HEADER_SIZE + payload_len - 24,
                RTP_HEADER_SIZE + payload_len,
            ),
            CryptoMode::Lite => p.subrange(
                RTP_HEADER_SIZE + payload_len - 4,
                RTP_HEADER_SIZE + payload_len,
            ) + Seq::new(20, |i: int| 0u8),
        }
    }

    /// The packet after in-place encryption: the 16 bytes after the header
    /// hold the tag, the range from there to the start of the nonce suffix
    /// holds the ciphertext of what stood there, and every other byte -
    /// header, nonce suffix, anything past `payload_len` - is untouched.
    pub open spec fn spec_encrypted(self, key: Seq<u8>, p: Seq<u8>, payload_len: int) -> Seq<u8> {
        let lo = RTP_HEADER_SIZE + TAG_SIZE;
        let hi = RTP_HEADER_SIZE + payload_len - self.spec_suffix_len();
        let nonce = self.spec_nonce_of(p, payload_len);
        let msg = p.subrange(lo as int, hi);
        Seq::new(
            p.len(),
            |i: int|
                if RTP_HEADER_SIZE <= i < lo {
                    enc_tag(key, nonce, msg)[i - RTP_HEADER_SIZE]
                } else if lo <= i < hi {
                    enc_ct(key, nonce, msg)[i - lo]
                } else {
                    p[i]
                },
        )
    }

    /// Returns the name of a mode as it will appear during negotiation.
    pub fn to_request_str(self) -> (r: &'static str)
        ensures
            self is Normal ==> r@ == "xsalsa20_poly1305"@,
            self is Suffix ==> r@ == "xsalsa20_poly1305_suffix"@,
            self is Lite ==> r@ == "xsalsa20_poly1305_lite"@,
    {
        match self {
            Self::Normal => "xsalsa20_poly1305",
            Self::Suffix => "xsalsa20_poly1305_suffix",
            Self::Lite => "xsalsa20_poly1305_lite",
        }
    }

    /// Returns the number of bytes each nonce is stored as within a packet.
    pub fn nonce_size(self) -> (r: usize)
        ensures
            r == self.spec_nonce_size(),
    {
        match self {
            Self::Normal => RTP_HEADER_SIZE,
            Self::Suffix => NONCE_SIZE,
            Self::Lite => 4,
        }
    }

    /// Returns the number of bytes occupied by the encryption scheme which
    /// fall before the payload.
    pub fn payload_prefix_len() -> (r: usize)
        ensures
            r == TAG_SIZE,
    {
        TAG_SIZE
    }

    /// Returns the number of bytes occupied by the encryption scheme which
    /// fall after the payload.
    pub fn payload_suffix_len(self) -> (r: usize)
        ensures
            r == self.spec_suffix_len(),
    {
        match self {
            Self::Normal => 0,
            Self::Suffix | Self::Lite => self.nonce_size(),
        }
    }

    /// Calculates the number of additional bytes required compared to an
    /// unencrypted payload.
    pub fn payload_overhead(self) -> (r: usize)
        ensures
            r == TAG_SIZE + self.spec_suffix_len(),
    {
        Self::payload_prefix_len() + self.payload_suffix_len()
    }

    /// Builds the 24-byte nonce that this packet carries under `self`.
    fn extract_nonce(self, packet: &Vec<u8>, payload_len: usize) -> (r: Vec<u8>)
        requires
            RTP_HEADER_SIZE + payload_len <= packet@.len(),
            payload_len >= TAG_SIZE + self.spec_suffix_len(),
        ensures
            r@ == self.spec_nonce_of(packet@, payload_len as int),
            r@.len() == NONCE_SIZE,
    {
        let total = packet.len();
        let mut r = match self {
            Self::Normal => copy_range(packet, 0, RTP_HEADER_SIZE),
            Self::Suffix => copy_range(
                packet,
                RTP_HEADER_SIZE + payload_len - NONCE_SIZE,
                RTP_HEADER_SIZE + payload_len,
            ),
            Self::Lite => copy_range(
                packet,
                RTP_HEADER_SIZE + payload_len - 4,
                RTP_HEADER_SIZE + payload_len,
            ),
        };
        while r.len() < NONCE_SIZE
            invariant
                r@.len() <= NONCE_SIZE,
                r@ == self.spec_nonce_of(packet@, payload_len as int).subrange(0, r@.len() as int),
                self.spec_nonce_of(packet@, payload_len as int).len() == NONCE_SIZE,
                forall|i: int|
                    self.spec_nonce_size() <= i < NONCE_SIZE ==> self.spec_nonce_of(
                        packet@,
                        payload_len as int,
                    )[i] == 0u8,
                r@.len() >= self.spec_nonce_size(),
            decreases NONCE_SIZE - r@.len(),
        {
            r.push(0u8);
            proof {
                assert(r@ =~= self.spec_nonce_of(packet@, payload_len as int).subrange(
                    0,
                    r@.len() as int,
                ));
            }
        }
        proof {
            assert(r@ =~= self.spec_nonce_of(packet@, payload_len as int));
        }
        r
    }

    /// Encrypts a Discord RT(C)P packet in place using the given key.
    ///
    /// The packet must already carry a nonce in the correct location, and
    /// `payload_len` gives the number of bytes after the header including
    /// that nonce. A payload too short to hold the nonce suffix is
    /// rejected untouched; otherwise the call succeeds, and the tag and
    /// ciphertext stand exactly where [`Self::spec_encrypted`] says with
    /// nothing else moved. On every accepted input the 12-byte RTP header
    /// - version, payload type, sequence, timestamp, SSRC - is
    /// bit-identical afterwards, so an emitted packet exposes the
    /// counters the mixer wrote into it.
    pub fn encrypt_in_place(self, packet: &mut Vec<u8>, key: &Vec<u8>, payload_len: usize) -> (r:
        Result<(), CryptoError>)
        requires
            key@.len() == KEY_SIZE,
            RTP_HEADER_SIZE + payload_len <= old(packet)@.len(),
            payload_len < self.spec_suffix_len() || payload_len >= TAG_SIZE
                + self.spec_suffix_len(),
        ensures
            r is Err <==> payload_len < self.spec_suffix_len(),
            r is Err ==> final(packet)@ == old(packet)@,
            forall|i: int|
                0 <= i < RTP_HEADER_SIZE ==> final(packet)@[i] == old(packet)@[i],
            r is Ok ==> final(packet)@ == self.spec_encrypted(
                key@,
                old(packet)@,
                payload_len as int,
            ),
            final(packet)@.len() == old(packet)@.len(),
    {
        if payload_len < self.payload_suffix_len() {
            return Err(CryptoError);
        }
        let total = packet.len();
        let lo = RTP_HEADER_SIZE + TAG_SIZE;
        let hi = RTP_HEADER_SIZE + payload_len - self.payload_suffix_len();
        let nonce = self.extract_nonce(packet, payload_len);
        let mut body = copy_range(packet, lo, hi);
        let tag = xsalsa_encrypt(key, &nonce, &mut body);
        write_range(packet, lo, &body);
        write_range(packet, RTP_HEADER_SIZE, &tag);
        proof {
            assert(packet@ =~= self.spec_encrypted(key@, old(packet)@, payload_len as int));
        }
        Ok(())
    }

    /// Decrypts a packet that [`Self::encrypt_in_place`] produced, reading
    /// the nonce region back out of the packet itself.
    ///
    /// Together with the contract of `encrypt_in_place` this is the round
    /// trip: for every packet, key and mode, encrypting and then decrypting
    /// with the nonce found in the packet restores the original payload
    /// bytes and succeeds.
    pub fn decrypt_in_place(self, packet: &mut Vec<u8>, key: &Vec<u8>, payload_len: usize) -> (r:
        Result<(), CryptoError>)
        requires
            key@.len() == KEY_SIZE,
            RTP_HEADER_SIZE + payload_len <= old(packet)@.len(),
            payload_len >= TAG_SIZE + self.spec_suffix_len(),
        ensures
            final(packet)@.len() == old(packet)@.len(),
            r is Err ==> final(packet)@ == old(packet)@,
            forall|i: int|
                0 <= i < final(packet)@.len() && !(RTP_HEADER_SIZE + TAG_SIZE <= i
                    < RTP_HEADER_SIZE + payload_len - self.spec_suffix_len()) ==> final(packet)@[i] == old(packet)@[i],
            forall|orig: Seq<u8>|
                orig.len() == old(packet)@.len() && old(packet)@ == self.spec_encrypted(
                    key@,
                    orig,
                    payload_len as int,
                ) ==> r is Ok && final(packet)@.subrange(
                    RTP_HEADER_SIZE + TAG_SIZE,
                    RTP_HEADER_SIZE + payload_len - self.spec_suffix_len(),
                ) == orig.subrange(
                    RTP_HEADER_SIZE + TAG_SIZE,
                    RTP_HEADER_SIZE + payload_len - self.spec_suffix_len(),
                ),
    {
        let total = packet.len();
        let lo = RTP_HEADER_SIZE + TAG_SIZE;
        let hi = RTP_HEADER_SIZE + payload_len - self.payload_suffix_len();
        let nonce = self.extract_nonce(packet, payload_len);
        let mut body = copy_range(packet, lo, hi);
        let tag = copy_range(packet, RTP_HEADER_SIZE, lo);
        let ghost pre_body = body@;
        let r = xsalsa_decrypt(key, &nonce, &mut body, &tag);
        if r.is_err() {
            proof {
                assert forall|orig: Seq<u8>|
                    orig.len() == old(packet)@.len() && old(packet)@ == self.spec_encrypted(
                        key@,
                        orig,
                        payload_len as int,
                    ) implies false by {
                    let msg = orig.subrange(lo as int, hi as int);
                    assert(self.spec_nonce_of(orig, payload_len as int) =~= nonce@);
                    assert(msg.len() == pre_body.len());
                    assert forall|i: int| 0 <= i < msg.len() implies pre_body[i] == enc_ct(
                        key@,
                        nonce@,
                        msg,
                    )[i] by {
                        assert(old(packet)@[lo + i] == self.spec_encrypted(
                            key@,
                            orig,
                            payload_len as int,
                        )[lo + i]);
                    }
                    assert forall|i: int| 0 <= i < TAG_SIZE implies tag@[i] == enc_tag(
                        key@,
                        nonce@,
                        msg,
                    )[i] by {
                        assert(old(packet)@[RTP_HEADER_SIZE + i] == self.spec_encrypted(
                            key@,
                            orig,
                            payload_len as int,
                        )[RTP_HEADER_SIZE + i]);
                    }
                }
            }
            return Err(CryptoError);
        }
        write_range(packet, lo, &body);
        proof {
            assert forall|orig: Seq<u8>|
                orig.len() == old(packet)@.len() && old(packet)@ == self.spec_encrypted(
                    key@,
                    orig,
                    payload_len as int,
                ) implies packet@.subrange(lo as int, hi as int) == orig.subrange(
                lo as int,
                hi as int,
            ) by {
                let msg = orig.subrange(lo as int, hi as int);
                assert(self.spec_nonce_of(orig, payload_len as int) =~= nonce@);
                assert(msg.len() == pre_body.len());
                assert forall|i: int| 0 <= i < msg.len() implies pre_body[i] == enc_ct(
                    key@,
                    nonce@,
                    msg,
                )[i] by {
                    assert(old(packet)@[lo + i] == self.spec_encrypted(
                        key@,
                        orig,
                        payload_len as int,
                    )[lo + i]);
                }
                assert forall|i: int| 0 <= i < TAG_SIZE implies tag@[i] == enc_tag(
                    key@,
                    nonce@,
                    msg,
                )[i] by {
                    assert(old(packet)@[RTP_HEADER_SIZE + i] == self.spec_encrypted(
                        key@,
                        orig,
                        payload_len as int,
                    )[RTP_HEADER_SIZE + i]);
                }
                assert(body@ == msg);
                assert(packet@.subrange(lo as int, hi as int) =~= msg);
            }
        }
        Ok(())
    }
}

impl From<CryptoState> for CryptoMode {
    /// Returns the stateless mode that a crypto state drives.
    fn from(val: CryptoState) -> (r: Self) {
        match val {
            CryptoState::Normal => Self::Normal,
            CryptoState::Suffix => Self::Suffix,
            CryptoState::Lite(_) => Self::Lite,
        }
    }
}

impl vstd::std_specs::convert::FromSpecImpl<CryptoState> for CryptoMode {
    open spec fn obeys_from_spec() -> bool {
        true
    }

    open spec fn from_spec(v: CryptoState) -> CryptoMode {
        v.spec_kind()
    }
}

/// State used in nonce generation for the `XSalsa20Poly1305` encryption
/// variants in [`CryptoMode`].
#[derive(Clone, Copy, Debug, PartialEq, Eq, Structural)]
pub enum CryptoState {
    /// The RTP header is used as the source of nonce bytes for the packet.
    ///
    /// No state is required.
    Normal,
    /// An additional random 24B suffix is used as the source of nonce bytes
    /// for the packet. This is regenerated randomly for each packet.
    ///
    /// No state is required.
    Suffix,
    /// An additional 4B suffix is used as the source of nonce bytes for the
    /// packet. This nonce value increments by `1` with each packet.
    ///
    /// The next nonce to use is stored.
    Lite(u32),
}

impl CryptoState {
    /// The underlying stateless mode of the active crypto state.
    pub open spec fn spec_kind(self) -> CryptoMode {
        match self {
            CryptoState::Normal => CryptoMode::Normal,
            CryptoState::Suffix => CryptoMode::Suffix,
            CryptoState::Lite(_) => CryptoMode::Lite,
        }
    }

    /// Builds the state for a negotiated mode; the `Lite` counter starts at
    /// a random value.
    pub fn from_mode(val: CryptoMode) -> (r: Self)
        ensures
            r.spec_kind() == val,
    {
        match val {
            CryptoMode::Normal => CryptoState::Normal,
            CryptoMode::Suffix => CryptoState::Suffix,
            CryptoMode::Lite => CryptoState::Lite(random_u32()),
        }
    }

    /// Writes the packet nonce into the body if the mode requires one,
    /// returning the new payload length.
    ///
    /// For `Lite`, the four bytes after the payload spell the current
    /// counter big-endian, and the counter steps by one (wrapping) so that
    /// the next packet sees the incremented value.
    pub fn write_packet_nonce(&mut self, packet: &mut Vec<u8>, payload_end: usize) -> (r: usize)
        requires
            RTP_HEADER_SIZE + payload_end + (*old(self)).spec_kind().spec_suffix_len() <= old(packet)@.len(),
        ensures
            r == payload_end + (*old(self)).spec_kind().spec_suffix_len(),
            final(packet)@.len() == old(packet)@.len(),
            (*final(self)).spec_kind() == (*old(self)).spec_kind(),
            forall|i: int|
                0 <= i < final(packet)@.len() && !(RTP_HEADER_SIZE + payload_end <= i
                    < RTP_HEADER_SIZE + r) ==> final(packet)@[i] == old(packet)@[i],
            *old(self) is Normal ==> *final(self) == *old(self) && final(packet)@ == old(packet)@,
            *old(self) is Suffix ==> *final(self) == *old(self),
            *old(self) is Lite ==> final(packet)@.subrange(
                RTP_HEADER_SIZE + payload_end,
                RTP_HEADER_SIZE + payload_end + 4,
            ) == spec_u32_be((*old(self))->Lite_0) && *final(self) == CryptoState::Lite(
                (((*old(self))->Lite_0 + 1) % 0x100000000) as u32,
            ),
    {
        let total = packet.len();
        let mode = self.kind();
        let endpoint = payload_end + mode.payload_suffix_len();
        match *self {
            CryptoState::Suffix => {
                fill_random_range(
                    packet,
                    RTP_HEADER_SIZE + payload_end,
                    RTP_HEADER_SIZE + endpoint,
                );
            },
            CryptoState::Lite(c) => {
                let bytes = u32_be_bytes(c);
                write_range(packet, RTP_HEADER_SIZE + payload_end, &bytes);
                proof {
                    assert(packet@.subrange(
                        RTP_HEADER_SIZE + payload_end,
                        RTP_HEADER_SIZE + payload_end + 4,
                    ) =~= spec_u32_be(c));
                }
                let next = if c == u32::MAX {
                    0
                } else {
                    c + 1
                };
                *self = CryptoState::Lite(next);
            },
            CryptoState::Normal => {},
        }
        endpoint
    }

    /// Returns the underlying (stateless) type of the active crypto mode.
    pub fn kind(self) -> (r: CryptoMode)
        ensures
            r == self.spec_kind(),
    {
        CryptoMode::from(self)
    }
}

} // verus!
