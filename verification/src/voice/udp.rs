//! The RTP data plane of a voice session: IP discovery, RTP headers, and
//! the packets that carry Opus frames.

use crate::crypto::{
    fresh_nonce, Cipher, EncryptError, EncryptionMode, NONCE_LEN, RTP_HEADER_LEN, TAG_LEN,
};
use crate::endian::{get_u16, get_u32, put_u16, put_u32, u16_at, u16_be, u32_at, u32_be};
use crate::text::utf8_str;
use vstd::arithmetic::div_mod::lemma_add_mod_noop;
use vstd::prelude::*;
use vstd::string::StringSliceAdditionalSpecFns;
use vstd::utf8::{decode_utf8, encode_utf8_decode_utf8, valid_utf8};

verus! {

/// The Opus frame that stands for silence.
pub const SILENCE_FRAME: [u8; 3] = [0xf8, 0xff, 0xfe];

/// How far the RTP timestamp moves with each packet: the samples of one
/// 20 ms Opus frame at 48 kHz.
pub const SAMPLES_PER_FRAME: u32 = 960;

/// Bytes in an IP discovery packet, request or response.
pub const DISCOVERY_LEN: usize = 74;

/// What is to be sent next.
#[derive(Debug)]
pub enum UDPMessage {
    Silence,
    Audio(Vec<u8>),
}

impl UDPMessage {
    /// The Opus frame that the message stands for.
    pub open spec fn payload(&self) -> Seq<u8> {
        match self {
            UDPMessage::Silence => SILENCE_FRAME@,
            UDPMessage::Audio(frame) => frame@,
        }
    }
}

/// The twelve bytes of an RTP header: version and payload type, then the
/// sequence number, the timestamp and the SSRC, each big-endian.
pub open spec fn rtp_header(sequence: u16, timestamp: u32, ssrc: u32) -> Seq<u8> {
    seq![0x80u8, 0x78u8] + u16_be(sequence) + u32_be(timestamp) + u32_be(ssrc)
}

/// Builds an RTP header.
pub fn build_rtp_header(sequence: u16, timestamp: u32, ssrc: u32) -> (header: [u8; 12])
    ensures
        header@ == rtp_header(sequence, timestamp, ssrc),
{
    let mut header = [0u8; 12];
    header[0] = 0x80;
    header[1] = 0x78;
    put_u16(&mut header, 2, sequence);
    put_u32(&mut header, 4, timestamp);
    put_u32(&mut header, 8, ssrc);
    assert(header@ =~= rtp_header(sequence, timestamp, ssrc));
    header
}

/// The sequence number `n` packets after `sequence`.
pub open spec fn sequence_after(sequence: u16, n: nat) -> u16 {
    ((sequence + n) % 0x1_0000) as u16
}

/// The timestamp `n` packets after `timestamp`.
pub open spec fn timestamp_after(timestamp: u32, n: nat) -> u32 {
    ((timestamp + SAMPLES_PER_FRAME * n) % 0x1_0000_0000) as u32
}

/// An address as the voice service reports it: the text of an IP address,
/// and a port.
#[derive(Debug, Clone, PartialEq, Eq)]
pub struct Address {
    pub ip: String,
    pub port: u16,
}

/// The request that opens IP discovery: type 1, length 70, the SSRC, and
/// zeros up to 74 bytes.
pub open spec fn discovery_request_bytes(ssrc: u32) -> Seq<u8> {
    u16_be(1) + u16_be(70) + u32_be(ssrc) + Seq::new(66, |i: int| 0u8)
}

/// Builds the request that opens IP discovery.
pub fn discovery_request(ssrc: u32) -> (request: [u8; 74])
    ensures
        request@ == discovery_request_bytes(ssrc),
{
    let mut request = [0u8; 74];
    put_u16(&mut request, 0, 1);
    put_u16(&mut request, 2, 70);
    put_u32(&mut request, 4, ssrc);
    assert(request@ =~= discovery_request_bytes(ssrc));
    request
}

/// Why a discovery response was turned down.
#[derive(Debug, Clone, Copy, PartialEq, Eq, Structural)]
pub enum DiscoveryError {
    /// The type is not 2, the length is not 70, or the SSRC is not ours.
    Mismatch,
    /// No zero byte ends the address.
    Unterminated,
    /// The address is not UTF-8.
    NotText,
}

/// Whether a response is a discovery response for `ssrc`.
pub open spec fn discovery_matches(response: Seq<u8>, ssrc: u32) -> bool {
    u16_at(response, 0) == 2 && u16_at(response, 2) == 70 && u32_at(response, 4) == ssrc
}

/// Whether `end` is where the address in `response` ends: at the first zero
/// byte from offset 8 on.
pub open spec fn address_ends_at(response: Seq<u8>, end: int) -> bool {
    &&& 8 <= end < response.len()
    &&& response[end] == 0
    &&& forall|i: int| 8 <= i < end ==> response[i] != 0
}

/// Reads a discovery response: the address as the voice service saw it.
/// The address text runs from offset 8 to the first zero byte, and the port
/// stands in the last two bytes, big-endian.
pub fn parse_discovery_response(response: &[u8; 74], ssrc: u32) -> (r: Result<
    Address,
    DiscoveryError,
>)
    ensures
        match r {
            Ok(address) => {
                &&& discovery_matches(response@, ssrc)
                &&& exists|end: int|
                    address_ends_at(response@, end) && valid_utf8(response@.subrange(8, end))
                        && address.ip@ == decode_utf8(response@.subrange(8, end))
                &&& address.port == u16_at(response@, 72)
            },
            Err(DiscoveryError::Mismatch) => !discovery_matches(response@, ssrc),
            Err(DiscoveryError::Unterminated) => {
                &&& discovery_matches(response@, ssrc)
                &&& forall|i: int| 8 <= i < 74 ==> response@[i] != 0
            },
            Err(DiscoveryError::NotText) => {
                &&& discovery_matches(response@, ssrc)
                &&& exists|end: int|
                    address_ends_at(response@, end) && !valid_utf8(response@.subrange(8, end))
            },
        },
{
    let bytes = response.as_slice();
    if get_u16(bytes, 0) != 2 || get_u16(bytes, 2) != 70 || get_u32(bytes, 4) != ssrc {
        return Err(DiscoveryError::Mismatch);
    }
    let mut end: usize = 8;
    while end < DISCOVERY_LEN && bytes[end] != 0
        invariant
            8 <= end <= DISCOVERY_LEN,
            bytes@ == response@,
            forall|i: int| 8 <= i < end ==> response@[i] != 0,
        decreases DISCOVERY_LEN - end,
    {
        end += 1;
    }
    if end == DISCOVERY_LEN {
        return Err(DiscoveryError::Unterminated);
    }
    assert(address_ends_at(response@, end as int));
    let text = &bytes[8..end];
    match utf8_str(text) {
        None => Err(DiscoveryError::NotText),
        Some(ip) => {
            proof {
                encode_utf8_decode_utf8(ip@);
            }
            let address = Address { ip: ip.to_owned(), port: get_u16(bytes, 72) };
            Ok(address)
        },
    }
}

/// Why no packet was built.
#[derive(Debug, Clone, Copy, PartialEq, Eq, Structural)]
pub enum UdpError {
    /// The session has no secret key yet.
    NoSecretKey,
    /// The cipher refused the frame.
    Encrypt(EncryptError),
}

/// The key bytes of a cipher that may not be there yet.
pub open spec fn key_of(cipher: Option<Cipher>) -> Option<Seq<u8>> {
    match cipher {
        Some(cipher) => Some(cipher@),
        None => None,
    }
}

/// What the data plane of a session holds.
pub struct VoiceUdpView {
    pub ssrc: u32,
    pub local_ip: Seq<char>,
    pub local_port: u16,
    pub mode: EncryptionMode,
    pub sequence: u16,
    pub timestamp: u32,
    pub key: Option<Seq<u8>>,
}

/// The sending side of a session's data plane. It numbers and seals the
/// packets; the socket that carries them belongs to the caller.
pub struct VoiceUDP {
    ssrc: u32,
    local_addr: Address,
    mode: EncryptionMode,
    sequence: u16,
    timestamp: u32,
    cipher: Option<Cipher>,
}

impl View for VoiceUDP {
    type V = VoiceUdpView;

    closed spec fn view(&self) -> VoiceUdpView {
        VoiceUdpView {
            ssrc: self.ssrc,
            local_ip: self.local_addr.ip@,
            local_port: self.local_addr.port,
            mode: self.mode,
            sequence: self.sequence,
            timestamp: self.timestamp,
            key: key_of(self.cipher),
        }
    }
}

impl VoiceUdpView {
    /// The packet that the next message is sent in, where the cipher seals
    /// it and the Suffix nonce, if one is needed, is `random`.
    pub open spec fn packet(self, payload: Seq<u8>, random: Seq<u8>) -> Result<Seq<u8>, UdpError> {
        match self.key {
            None => Err(UdpError::NoSecretKey),
            Some(key) => match self.mode.outcome(
                payload,
                rtp_header(self.sequence, self.timestamp, self.ssrc),
                key,
                random,
            ) {
                Ok(packet) => Ok(packet),
                Err(e) => Err(UdpError::Encrypt(e)),
            },
        }
    }

    /// The data plane after one more message, given whether a packet was
    /// built for it. Without a key nothing moves. With a key the mode has
    /// been used once; the sequence number and the timestamp move only
    /// where a packet was built.
    pub open spec fn after(self, built: bool) -> VoiceUdpView {
        match self.key {
            None => self,
            Some(_) => VoiceUdpView {
                mode: self.mode.after_packet(),
                sequence: if built {
                    sequence_after(self.sequence, 1)
                } else {
                    self.sequence
                },
                timestamp: if built {
                    timestamp_after(self.timestamp, 1)
                } else {
                    self.timestamp
                },
                ..self
            },
        }
    }
}

impl VoiceUDP {
    /// The data plane of a session whose socket is connected and whose
    /// local address has just been discovered: sequence number and
    /// timestamp at zero, and no secret key yet.
    pub fn connect(ssrc: u32, local_addr: Address, mode: EncryptionMode) -> (udp: VoiceUDP)
        ensures
            udp@ == (VoiceUdpView {
                ssrc,
                local_ip: local_addr.ip@,
                local_port: local_addr.port,
                mode,
                sequence: 0,
                timestamp: 0,
                key: None,
            }),
    {
        VoiceUDP { ssrc, local_addr, mode, sequence: 0, timestamp: 0, cipher: None }
    }

    /// The place of the session's secret key, to install it once the voice
    /// service has sent it. Nothing else of the data plane changes with it.
    pub fn cipher_mut(&mut self) -> (cipher: &mut Option<Cipher>)
        ensures
            key_of(*cipher) == old(self)@.key,
            final(self)@ == (VoiceUdpView { key: key_of(*final(cipher)), ..old(self)@ }),
    {
        &mut self.cipher
    }

    /// The address under which the voice service sees this side.
    pub fn local_addr(&self) -> (address: Address)
        ensures
            address.ip@ == self@.local_ip,
            address.port == self@.local_port,
    {
        Address { ip: self.local_addr.ip.clone(), port: self.local_addr.port }
    }

    pub fn ssrc(&self) -> (ssrc: u32)
        ensures
            ssrc == self@.ssrc,
    {
        self.ssrc
    }

    pub fn mode(&self) -> (mode: EncryptionMode)
        ensures
            mode == self@.mode,
    {
        self.mode
    }

    pub fn sequence(&self) -> (sequence: u16)
        ensures
            sequence == self@.sequence,
    {
        self.sequence
    }

    pub fn timestamp(&self) -> (timestamp: u32)
        ensures
            timestamp == self@.timestamp,
    {
        self.timestamp
    }

    /// One turn of the send loop. In the Suffix mode the nonce is drawn at
    /// random, so the packet is one of those that
    /// [`next_packet_with`](VoiceUDP::next_packet_with) builds for some
    /// nonce; in the other modes every nonce gives the same packet.
    pub fn next_packet(&mut self, msg: &UDPMessage) -> (r: Result<Vec<u8>, UdpError>)
        ensures
            exists|random: Seq<u8>|
                random.len() == NONCE_LEN && match r {
                    Ok(packet) => Ok::<Seq<u8>, UdpError>(packet@),
                    Err(e) => Err(e),
                } == #[trigger] old(self)@.packet(msg.payload(), random),
            r matches Ok(packet) ==> packet@.len() == RTP_HEADER_LEN + msg.payload().len()
                + TAG_LEN + old(self)@.mode.trailer_len(),
            final(self)@ == old(self)@.after(r is Ok),
    {
        let random = match self.mode {
            EncryptionMode::XSalsa20Poly1305Suffix => fresh_nonce(),
            _ => [0u8; 24],
        };
        let r = self.next_packet_with(msg, &random);
        assert(random@.len() == NONCE_LEN);
        r
    }

    /// One turn of the send loop, with `random` as the nonce where the mode
    /// is Suffix: builds the packet for `msg` under the current sequence
    /// number and timestamp, then moves both on. They move whatever becomes
    /// of the packet afterwards: a send that fails is not made up for.
    pub fn next_packet_with(&mut self, msg: &UDPMessage, random: &[u8; 24]) -> (r: Result<
        Vec<u8>,
        UdpError,
    >)
        ensures
            match r {
                Ok(packet) => Ok::<Seq<u8>, UdpError>(packet@),
                Err(e) => Err(e),
            } == old(self)@.packet(msg.payload(), random@),
            r matches Ok(packet) ==> packet@.len() == RTP_HEADER_LEN + msg.payload().len()
                + TAG_LEN + old(self)@.mode.trailer_len(),
            final(self)@ == old(self)@.after(r is Ok),
    {
        let header = build_rtp_header(self.sequence, self.timestamp, self.ssrc);
        let cipher = match &self.cipher {
            None => {
                return Err(UdpError::NoSecretKey);
            },
            Some(cipher) => cipher,
        };
        let sealed = match msg {
            UDPMessage::Silence => self.mode.encrypt_with(
                SILENCE_FRAME.as_slice(),
                &header,
                cipher,
                random,
            ),
            UDPMessage::Audio(frame) => self.mode.encrypt_with(
                frame.as_slice(),
                &header,
                cipher,
                random,
            ),
        };
        match sealed {
            Err(e) => Err(UdpError::Encrypt(e)),
            Ok(packet) => {
                self.sequence = self.sequence.wrapping_add(1);
                self.timestamp = self.timestamp.wrapping_add(SAMPLES_PER_FRAME);
                Ok(packet)
            },
        }
    }
}

impl VoiceUdpView {
    /// The data plane after `n` more messages for each of which a packet
    /// was built.
    pub open spec fn after_packets(self, n: nat) -> VoiceUdpView
        decreases n,
    {
        if n == 0 {
            self
        } else {
            self.after_packets((n - 1) as nat).after(true)
        }
    }
}

/// RTP monotonicity: a keyed data plane that has built `n` packets stands
/// at the sequence number `start + n` modulo 2^16 and at the timestamp
/// `start + 960 * n` modulo 2^32, and still has its SSRC and its key. So
/// the packet built next, the `n`-th of the run counting from zero, carries
/// exactly these two numbers in its header.
pub proof fn lemma_rtp_monotone(start: VoiceUdpView, n: nat)
    requires
        start.key is Some,
    ensures
        start.after_packets(n).sequence == (start.sequence + n) % 0x1_0000,
        start.after_packets(n).timestamp == (start.timestamp + 960 * n) % 0x1_0000_0000,
        start.after_packets(n).sequence == sequence_after(start.sequence, n),
        start.after_packets(n).timestamp == timestamp_after(start.timestamp, n),
        start.after_packets(n).ssrc == start.ssrc,
        start.after_packets(n).key == start.key,
    decreases n,
{
    if n > 0 {
        let before = start.after_packets((n - 1) as nat);
        lemma_rtp_monotone(start, (n - 1) as nat);
        lemma_add_mod_noop(start.sequence + (n - 1), 1, 0x1_0000);
        lemma_add_mod_noop(start.timestamp + 960 * (n - 1), 960, 0x1_0000_0000);
        assert(before.after(true).sequence == (before.sequence + 1) % 0x1_0000);
        assert(before.after(true).timestamp == (before.timestamp + 960) % 0x1_0000_0000);
    }
}

} // verus!
