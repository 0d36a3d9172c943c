//! The three XSalsa20-Poly1305 modes of the voice data plane.
//!
//! Every mode seals the Opus payload with a 24-byte nonce and puts the RTP
//! header in front of the sealed box. The modes differ in where the nonce
//! comes from and in what the receiver finds of it on the wire.

use crate::endian::{lemma_u32_round_trip, put_u32, u32_at, u32_be, zeros};
use crate::text::str_eq;
use crypto_secretbox::aead::{Aead, AeadCore, KeyInit};
use crypto_secretbox::XSalsa20Poly1305;
use vstd::prelude::*;

verus! {

/// Bytes in a secret key.
pub const KEY_LEN: usize = 32;

/// Bytes in a nonce, whatever the mode.
pub const NONCE_LEN: usize = 24;

/// Bytes in an RTP header.
pub const RTP_HEADER_LEN: usize = 12;

/// `crypto_secretbox::aead::Error`: the cipher's only error, which says
/// nothing of its cause.
#[verifier::external_type_specification]
#[verifier::external_body]
pub struct ExAeadError(crypto_secretbox::aead::Error);

/// What `XSalsa20Poly1305::encrypt` returns for a key, a nonce and a
/// plaintext with no associated data: the sealed box, or `None` where the
/// cipher reports an error.
pub uninterp spec fn secretbox(key: Seq<u8>, nonce: Seq<u8>, plaintext: Seq<u8>) -> Option<Seq<u8>>;

/// Bytes that sealing adds to a payload: the authentication tag.
pub const TAG_LEN: usize = 16;

/// Builds an `XSalsa20Poly1305` from `key` and calls its `Aead::encrypt`
/// with `nonce` and `plaintext`. Trusted: the outcome depends on the three
/// byte strings alone, so it is named [`secretbox`]; and a sealed box is
/// longer than its plaintext by the tag. Nothing is claimed of the bytes
/// themselves.
#[verifier::external_body]
fn seal(key: &[u8; 32], nonce: &[u8; 24], plaintext: &[u8]) -> (r: Result<
    Vec<u8>,
    crypto_secretbox::aead::Error,
>)
    ensures
        match r {
            Ok(sealed) => secretbox(key@, nonce@, plaintext@) == Some(sealed@) && sealed@.len()
                == plaintext@.len() + TAG_LEN,
            Err(_) => secretbox(key@, nonce@, plaintext@) is None,
        },
{
    XSalsa20Poly1305::new(key.into()).encrypt(nonce.into(), plaintext)
}

/// Calls `XSalsa20Poly1305::generate_nonce` with `rand::thread_rng()`.
/// Trusted only for its type: 24 bytes, of which nothing is known.
#[verifier::external_body]
pub(crate) fn fresh_nonce() -> (nonce: [u8; 24]) {
    XSalsa20Poly1305::generate_nonce(&mut rand::thread_rng()).into()
}

/// The secret key of one voice session.
pub struct Cipher {
    key: [u8; 32],
}

impl View for Cipher {
    type V = Seq<u8>;

    /// The 32 key bytes.
    closed spec fn view(&self) -> Seq<u8> {
        self.key@
    }
}

impl Cipher {
    pub fn new(key: [u8; 32]) -> (cipher: Cipher)
        ensures
            cipher@ == key@,
    {
        Cipher { key }
    }

    /// A key is always 32 bytes long.
    pub proof fn lemma_key_len(self)
        ensures
            self@.len() == KEY_LEN,
    {
    }
}

/// Why a packet could not be built.
#[derive(Clone, Copy, Debug, PartialEq, Eq, Structural)]
pub enum EncryptError {
    /// The cipher refused to seal the payload.
    Cipher,
}

/// An encryption mode of the voice service. The derived order is the order
/// of preference: the smallest mode that the service offers is selected.
#[derive(Clone, Copy, Debug, PartialEq, Eq, PartialOrd, Ord, Structural)]
pub enum EncryptionMode {
    /// The nonce is the RTP header followed by twelve zero bytes; nothing of
    /// it is sent, since the header already is.
    XSalsa20Poly1305,
    /// The nonce is a 32-bit counter, big-endian, followed by twenty zero
    /// bytes; the four counter bytes end the packet. The counter goes up by
    /// one with every packet and wraps.
    XSalsa20Poly1305Lite(u32),
    /// The nonce is 24 random bytes, which end the packet.
    XSalsa20Poly1305Suffix,
}

impl EncryptionMode {
    /// The variant's position, then the Lite counter: modes are ordered by
    /// this pair.
    pub open spec fn order_key(self) -> (int, int) {
        match self {
            EncryptionMode::XSalsa20Poly1305 => (0, 0),
            EncryptionMode::XSalsa20Poly1305Lite(counter) => (1, counter as int),
            EncryptionMode::XSalsa20Poly1305Suffix => (2, 0),
        }
    }

    /// `self` is preferred to `other`, or equal to it.
    pub open spec fn leq(self, other: EncryptionMode) -> bool {
        let (a, b) = (self.order_key(), other.order_key());
        a.0 < b.0 || (a.0 == b.0 && a.1 <= b.1)
    }

    /// Whether `self` is preferred to `other`, or equal to it.
    pub fn is_leq(&self, other: &EncryptionMode) -> (r: bool)
        ensures
            r == self.leq(*other),
    {
        match (self, other) {
            (EncryptionMode::XSalsa20Poly1305, _) => true,
            (EncryptionMode::XSalsa20Poly1305Lite(_), EncryptionMode::XSalsa20Poly1305) => false,
            (EncryptionMode::XSalsa20Poly1305Lite(a), EncryptionMode::XSalsa20Poly1305Lite(b)) => *a
                <= *b,
            (EncryptionMode::XSalsa20Poly1305Lite(_), EncryptionMode::XSalsa20Poly1305Suffix) => true,
            (EncryptionMode::XSalsa20Poly1305Suffix, EncryptionMode::XSalsa20Poly1305Suffix) => true,
            (EncryptionMode::XSalsa20Poly1305Suffix, _) => false,
        }
    }

    /// The nonce that seals a packet: fixed by the header in the plain mode
    /// and by the counter in the Lite mode, and `random` in the Suffix mode.
    pub open spec fn nonce(self, rtp_header: Seq<u8>, random: Seq<u8>) -> Seq<u8> {
        match self {
            EncryptionMode::XSalsa20Poly1305 => rtp_header + zeros(12),
            EncryptionMode::XSalsa20Poly1305Lite(counter) => u32_be(counter) + zeros(20),
            EncryptionMode::XSalsa20Poly1305Suffix => random,
        }
    }

    /// The part of the nonce that ends the packet.
    pub open spec fn trailer(self, random: Seq<u8>) -> Seq<u8> {
        match self {
            EncryptionMode::XSalsa20Poly1305 => Seq::empty(),
            EncryptionMode::XSalsa20Poly1305Lite(counter) => u32_be(counter),
            EncryptionMode::XSalsa20Poly1305Suffix => random,
        }
    }

    /// The packet on the wire: header, sealed box, trailer.
    pub open spec fn packet(self, rtp_header: Seq<u8>, sealed: Seq<u8>, random: Seq<u8>) -> Seq<u8> {
        rtp_header + sealed + self.trailer(random)
    }

    /// The mode after one packet: the Lite counter has gone up by one,
    /// wrapping to zero after `0xFFFF_FFFF`.
    pub open spec fn after_packet(self) -> EncryptionMode {
        match self {
            EncryptionMode::XSalsa20Poly1305Lite(counter) => EncryptionMode::XSalsa20Poly1305Lite(
                if counter == u32::MAX {
                    0
                } else {
                    (counter + 1) as u32
                },
            ),
            other => other,
        }
    }

    /// What [`encrypt_with`](EncryptionMode::encrypt_with) returns in mode
    /// `self` when the Suffix nonce, if one is needed, is `random`.
    pub open spec fn outcome(
        self,
        data: Seq<u8>,
        rtp_header: Seq<u8>,
        key: Seq<u8>,
        random: Seq<u8>,
    ) -> Result<Seq<u8>, EncryptError> {
        match secretbox(key, self.nonce(rtp_header, random), data) {
            Some(sealed) => Ok(self.packet(rtp_header, sealed, random)),
            None => Err(EncryptError::Cipher),
        }
    }

    /// The nonce that seals the next packet, with `random` as the nonce
    /// where the mode is Suffix.
    pub fn nonce_bytes(&self, rtp_header: &[u8; 12], random: &[u8; 24]) -> (nonce: [u8; 24])
        ensures
            nonce@ == self.nonce(rtp_header@, random@),
    {
        let mut nonce = [0u8; 24];
        match self {
            EncryptionMode::XSalsa20Poly1305Lite(counter) => {
                put_u32(&mut nonce, 0, *counter);
            },
            EncryptionMode::XSalsa20Poly1305Suffix => {
                nonce = *random;
            },
            EncryptionMode::XSalsa20Poly1305 => {
                let mut i: usize = 0;
                while i < 12
                    invariant
                        i <= 12,
                        nonce@.len() == 24,
                        forall|j: int| 0 <= j < i ==> nonce@[j] == rtp_header@[j],
                        forall|j: int| i <= j < 24 ==> nonce@[j] == 0u8,
                    decreases 12 - i,
                {
                    nonce[i] = rtp_header[i];
                    i += 1;
                }
            },
        }
        assert(nonce@ =~= self.nonce(rtp_header@, random@));
        nonce
    }

    /// Puts a packet together from its header, the sealed box and, where
    /// the mode sends one, the trailer.
    pub fn assemble(&self, rtp_header: &[u8; 12], sealed: &[u8], random: &[u8; 24]) -> (packet: Vec<
        u8,
    >)
        ensures
            packet@ == self.packet(rtp_header@, sealed@, random@),
    {
        let mut packet: Vec<u8> = Vec::new();
        packet.extend_from_slice(rtp_header.as_slice());
        packet.extend_from_slice(sealed);
        match self {
            EncryptionMode::XSalsa20Poly1305Lite(counter) => {
                let mut trailer = [0u8; 4];
                put_u32(&mut trailer, 0, *counter);
                assert(trailer@ =~= u32_be(*counter));
                packet.extend_from_slice(trailer.as_slice());
            },
            EncryptionMode::XSalsa20Poly1305Suffix => {
                packet.extend_from_slice(random.as_slice());
            },
            EncryptionMode::XSalsa20Poly1305 => {},
        }
        assert(packet@ =~= self.packet(rtp_header@, sealed@, random@));
        packet
    }

    /// Moves on to the next packet: the Lite counter goes up by one and
    /// wraps; the other modes stay as they are.
    pub fn advance(&mut self)
        ensures
            *final(self) == old(self).after_packet(),
    {
        match self {
            EncryptionMode::XSalsa20Poly1305Lite(counter) => {
                *counter = counter.wrapping_add(1);
            },
            _ => {},
        }
    }

    /// Builds the packet for `data` behind `rtp_header`, with `random` as
    /// the nonce where the mode is Suffix; the other modes ignore it. The
    /// Lite counter advances whether or not the cipher succeeds.
    pub fn encrypt_with(
        &mut self,
        data: &[u8],
        rtp_header: &[u8; 12],
        cipher: &Cipher,
        random: &[u8; 24],
    ) -> (r: Result<Vec<u8>, EncryptError>)
        ensures
            *final(self) == old(self).after_packet(),
            match r {
                Ok(packet) => Ok::<Seq<u8>, EncryptError>(packet@),
                Err(e) => Err(e),
            } == old(self).outcome(data@, rtp_header@, cipher@, random@),
            r matches Ok(packet) ==> packet@.len() == RTP_HEADER_LEN + data@.len() + TAG_LEN + old(
                self,
            ).trailer_len(),
    {
        let mode = *self;
        let nonce = mode.nonce_bytes(rtp_header, random);
        self.advance();
        match seal(&cipher.key, &nonce, data) {
            Ok(sealed) => Ok(mode.assemble(rtp_header, sealed.as_slice(), random)),
            Err(_) => Err(EncryptError::Cipher),
        }
    }

    /// Builds the packet for `data` behind `rtp_header`. In the Suffix mode
    /// the nonce is drawn at random, so the packet is one of those that
    /// [`encrypt_with`](EncryptionMode::encrypt_with) builds for some nonce;
    /// in the other modes every nonce gives the same packet.
    pub fn encrypt(&mut self, data: &[u8], rtp_header: &[u8; 12], cipher: &Cipher) -> (r: Result<
        Vec<u8>,
        EncryptError,
    >)
        ensures
            *final(self) == old(self).after_packet(),
            exists|random: Seq<u8>|
                random.len() == NONCE_LEN && match r {
                    Ok(packet) => Ok::<Seq<u8>, EncryptError>(packet@),
                    Err(e) => Err(e),
                } == #[trigger] old(self).outcome(data@, rtp_header@, cipher@, random),
            r matches Ok(packet) ==> packet@.len() == RTP_HEADER_LEN + data@.len() + TAG_LEN + old(
                self,
            ).trailer_len(),
    {
        let random = match self {
            EncryptionMode::XSalsa20Poly1305Suffix => fresh_nonce(),
            _ => [0u8; 24],
        };
        let r = self.encrypt_with(data, rtp_header, cipher, &random);
        assert(random@.len() == NONCE_LEN);
        r
    }
}

/// `chosen` is the preferred mode among `modes`: it occurs there, and no
/// mode there comes before it.
pub open spec fn is_preferred(modes: Seq<EncryptionMode>, chosen: EncryptionMode) -> bool {
    modes.contains(chosen) && forall|i: int| 0 <= i < modes.len() ==> chosen.leq(#[trigger] modes[i])
}

/// The preferred mode among those offered, or `None` where none is offered.
pub fn preferred_mode(modes: &[EncryptionMode]) -> (chosen: Option<EncryptionMode>)
    ensures
        chosen is None <==> modes@.len() == 0,
        chosen matches Some(mode) ==> is_preferred(modes@, mode),
{
    if modes.len() == 0 {
        return None;
    }
    let mut best = modes[0];
    let mut i: usize = 1;
    while i < modes.len()
        invariant
            1 <= i <= modes@.len(),
            exists|k: int| 0 <= k < i && modes@[k] == best,
            forall|j: int| 0 <= j < i ==> best.leq(#[trigger] modes@[j]),
        decreases modes@.len() - i,
    {
        if !best.is_leq(&modes[i]) {
            best = modes[i];
        }
        i += 1;
    }
    Some(best)
}

/// Two modes that are each preferred to the other are the same mode, so a
/// list has at most one preferred mode.
pub proof fn lemma_preferred_unique(modes: Seq<EncryptionMode>, a: EncryptionMode, b: EncryptionMode)
    requires
        is_preferred(modes, a),
        is_preferred(modes, b),
    ensures
        a == b,
{
    let i = choose|i: int| 0 <= i < modes.len() && modes[i] == a;
    let j = choose|j: int| 0 <= j < modes.len() && modes[j] == b;
    assert(a.leq(modes[j]));
    assert(b.leq(modes[i]));
}

/// The preferred mode does not depend on the order of the list, nor on how
/// often a mode is offered: two lists that offer the same modes have the
/// same preferred mode.
pub proof fn lemma_preferred_ignores_order(
    first: Seq<EncryptionMode>,
    second: Seq<EncryptionMode>,
    chosen: EncryptionMode,
)
    requires
        forall|mode: EncryptionMode| first.contains(mode) <==> second.contains(mode),
        is_preferred(first, chosen),
    ensures
        is_preferred(second, chosen),
{
    assert forall|i: int| 0 <= i < second.len() implies chosen.leq(#[trigger] second[i]) by {
        assert(second.contains(second[i]));
        let k = choose|k: int| 0 <= k < first.len() && first[k] == second[i];
        assert(chosen.leq(first[k]));
    }
}

/// The plain mode wins wherever it is offered; failing that, a Lite mode
/// wins over Suffix; Suffix is chosen only where nothing else is offered.
pub proof fn lemma_preferred_by_variant(modes: Seq<EncryptionMode>, chosen: EncryptionMode)
    requires
        is_preferred(modes, chosen),
    ensures
        modes.contains(EncryptionMode::XSalsa20Poly1305) ==> chosen
            == EncryptionMode::XSalsa20Poly1305,
        !modes.contains(EncryptionMode::XSalsa20Poly1305) && (exists|i: int|
            0 <= i < modes.len() && modes[i] is XSalsa20Poly1305Lite)
            ==> chosen is XSalsa20Poly1305Lite,
        (forall|i: int| 0 <= i < modes.len() ==> modes[i] == EncryptionMode::XSalsa20Poly1305Suffix)
            ==> chosen == EncryptionMode::XSalsa20Poly1305Suffix,
{
    if modes.contains(EncryptionMode::XSalsa20Poly1305) {
        let i = choose|i: int| 0 <= i < modes.len() && modes[i] == EncryptionMode::XSalsa20Poly1305;
        assert(chosen.leq(modes[i]));
    }
    if exists|i: int| 0 <= i < modes.len() && modes[i] is XSalsa20Poly1305Lite {
        let i = choose|i: int| 0 <= i < modes.len() && modes[i] is XSalsa20Poly1305Lite;
        assert(chosen.leq(modes[i]));
    }
    let k = choose|k: int| 0 <= k < modes.len() && modes[k] == chosen;
    assert(modes[k] == chosen);
}

impl EncryptionMode {
    /// How many bytes of the nonce end the packet.
    pub open spec fn trailer_len(self) -> int {
        match self {
            EncryptionMode::XSalsa20Poly1305 => 0,
            EncryptionMode::XSalsa20Poly1305Lite(_) => 4,
            EncryptionMode::XSalsa20Poly1305Suffix => 24,
        }
    }

    /// The nonce as a receiver rebuilds it from a packet: from the header in
    /// the plain mode, from the last four bytes in the Lite mode, and the
    /// last 24 bytes in the Suffix mode.
    pub open spec fn nonce_in(self, packet: Seq<u8>) -> Seq<u8> {
        let end = packet.len() as int;
        match self {
            EncryptionMode::XSalsa20Poly1305 => packet.subrange(0, 12) + zeros(12),
            EncryptionMode::XSalsa20Poly1305Lite(_) => packet.subrange(end - 4, end) + zeros(20),
            EncryptionMode::XSalsa20Poly1305Suffix => packet.subrange(end - 24, end),
        }
    }

    /// The sealed box as a receiver cuts it out of a packet: what lies
    /// between the header and the trailer.
    pub open spec fn sealed_in(self, packet: Seq<u8>) -> Seq<u8> {
        packet.subrange(12, packet.len() - self.trailer_len())
    }
}

/// Wire layout: a packet starts with its RTP header, and what a receiver
/// cuts out of it as the sealed box is the secretbox of the payload under
/// the nonce that the receiver rebuilds from the packet.
pub proof fn lemma_wire_layout(
    mode: EncryptionMode,
    data: Seq<u8>,
    rtp_header: Seq<u8>,
    key: Seq<u8>,
    random: Seq<u8>,
    packet: Seq<u8>,
)
    requires
        rtp_header.len() == RTP_HEADER_LEN,
        random.len() == NONCE_LEN,
        mode.outcome(data, rtp_header, key, random) == Ok::<Seq<u8>, EncryptError>(packet),
    ensures
        packet.subrange(0, 12) == rtp_header,
        secretbox(key, mode.nonce_in(packet), data) == Some(mode.sealed_in(packet)),
{
    let sealed = secretbox(key, mode.nonce(rtp_header, random), data)->0;
    assert(packet == rtp_header + sealed + mode.trailer(random));
    assert(packet.subrange(0, 12) =~= rtp_header);
    assert(mode.sealed_in(packet) =~= sealed);
    assert(mode.nonce_in(packet) =~= mode.nonce(rtp_header, random)) by {
        let end = packet.len() as int;
        match mode {
            EncryptionMode::XSalsa20Poly1305 => {},
            EncryptionMode::XSalsa20Poly1305Lite(counter) => {
                assert(packet.subrange(end - 4, end) =~= u32_be(counter));
            },
            EncryptionMode::XSalsa20Poly1305Suffix => {
                assert(packet.subrange(end - 24, end) =~= random);
            },
        }
    }
}

/// Lite counter: the four bytes that end a Lite packet spell the counter,
/// and those of the next packet spell the counter plus one, modulo 2^32.
pub proof fn lemma_lite_counter(
    counter: u32,
    rtp_header: Seq<u8>,
    first_sealed: Seq<u8>,
    second_sealed: Seq<u8>,
    random: Seq<u8>,
)
    ensures
        ({
            let mode = EncryptionMode::XSalsa20Poly1305Lite(counter);
            let first = mode.packet(rtp_header, first_sealed, random);
            let second = mode.after_packet().packet(rtp_header, second_sealed, random);
            &&& u32_at(first, first.len() - 4) == counter
            &&& u32_at(second, second.len() - 4) == (counter + 1) % 0x1_0000_0000
        }),
{
    let mode = EncryptionMode::XSalsa20Poly1305Lite(counter);
    let first = mode.packet(rtp_header, first_sealed, random);
    let second = mode.after_packet().packet(rtp_header, second_sealed, random);
    let next = mode.after_packet()->0;
    assert(first.subrange(first.len() - 4, first.len() as int) =~= u32_be(counter));
    assert(second.subrange(second.len() - 4, second.len() as int) =~= u32_be(next));
    lemma_u32_round_trip(counter);
    lemma_u32_round_trip(next);
    assert(u32_at(first, first.len() - 4) == u32_at(u32_be(counter), 0));
    assert(u32_at(second, second.len() - 4) == u32_at(u32_be(next), 0));
}

impl EncryptionMode {
    /// The name of the mode in the voice service's messages.
    pub open spec fn wire_name(self) -> Seq<char> {
        match self {
            EncryptionMode::XSalsa20Poly1305 => "xsalsa20_poly1305"@,
            EncryptionMode::XSalsa20Poly1305Lite(_) => "xsalsa20_poly1305_lite"@,
            EncryptionMode::XSalsa20Poly1305Suffix => "xsalsa20_poly1305_suffix"@,
        }
    }

    /// The mode that a name stands for, with a Lite counter of zero; `None`
    /// for a name that is not one of the three.
    pub open spec fn named(name: Seq<char>) -> Option<EncryptionMode> {
        if name == "xsalsa20_poly1305"@ {
            Some(EncryptionMode::XSalsa20Poly1305)
        } else if name == "xsalsa20_poly1305_lite"@ {
            Some(EncryptionMode::XSalsa20Poly1305Lite(0))
        } else if name == "xsalsa20_poly1305_suffix"@ {
            Some(EncryptionMode::XSalsa20Poly1305Suffix)
        } else {
            None
        }
    }

    /// The name of the mode in the voice service's messages.
    pub fn name(&self) -> (name: &'static str)
        ensures
            name@ == self.wire_name(),
    {
        match self {
            EncryptionMode::XSalsa20Poly1305 => "xsalsa20_poly1305",
            EncryptionMode::XSalsa20Poly1305Lite(_) => "xsalsa20_poly1305_lite",
            EncryptionMode::XSalsa20Poly1305Suffix => "xsalsa20_poly1305_suffix",
        }
    }

    /// The mode that `name` stands for, if it is the name of one.
    pub fn from_name(name: &str) -> (mode: Option<EncryptionMode>)
        ensures
            mode == EncryptionMode::named(name@),
    {
        if str_eq(name, "xsalsa20_poly1305") {
            Some(EncryptionMode::XSalsa20Poly1305)
        } else if str_eq(name, "xsalsa20_poly1305_lite") {
            Some(EncryptionMode::XSalsa20Poly1305Lite(0))
        } else if str_eq(name, "xsalsa20_poly1305_suffix") {
            Some(EncryptionMode::XSalsa20Poly1305Suffix)
        } else {
            None
        }
    }

    /// A mode's name stands for that mode, with its counter back at zero.
    pub proof fn lemma_name_round_trip(self)
        ensures
            EncryptionMode::named(self.wire_name()) == Some(
                match self {
                    EncryptionMode::XSalsa20Poly1305Lite(_) => EncryptionMode::XSalsa20Poly1305Lite(0),
                    other => other,
                },
            ),
    {
        reveal_strlit("xsalsa20_poly1305");
        reveal_strlit("xsalsa20_poly1305_lite");
        reveal_strlit("xsalsa20_poly1305_suffix");
        assert("xsalsa20_poly1305"@.len() == 17);
        assert("xsalsa20_poly1305_lite"@.len() == 22);
        assert("xsalsa20_poly1305_suffix"@.len() == 24);
    }
}

/// The names in `names` that stand for a mode, each replaced by its mode and
/// in the order in which they came.
pub open spec fn known_modes(names: Seq<Seq<char>>) -> Seq<EncryptionMode>
    decreases names.len(),
{
    if names.len() == 0 {
        Seq::empty()
    } else {
        let rest = known_modes(names.drop_last());
        match EncryptionMode::named(names.last()) {
            Some(mode) => rest.push(mode),
            None => rest,
        }
    }
}

/// The modes among `names`; a name that stands for no mode is dropped.
pub fn modes_from_names(names: &Vec<String>) -> (modes: Vec<EncryptionMode>)
    ensures
        modes@ == known_modes(names@.map_values(|name: String| name@)),
{
    let ghost all = names@.map_values(|name: String| name@);
    let mut modes: Vec<EncryptionMode> = Vec::new();
    let mut i: usize = 0;
    while i < names.len()
        invariant
            i <= names@.len(),
            all == names@.map_values(|name: String| name@),
            modes@ == known_modes(all.take(i as int)),
        decreases names@.len() - i,
    {
        assert(all.take(i + 1).drop_last() =~= all.take(i as int));
        assert(all.take(i + 1).last() == names@[i as int]@);
        if let Some(mode) = EncryptionMode::from_name(names[i].as_str()) {
            modes.push(mode);
        }
        i += 1;
    }
    assert(all.take(i as int) =~= all);
    modes
}

} // verus!
