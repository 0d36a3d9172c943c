//! Opus packets out of an Ogg stream.
//!
//! An Ogg stream is a run of pages. A page starts with a header of 27
//! bytes, the last of which counts the segments of the page. As many bytes
//! follow, one per segment, each the length of its segment; then come the
//! segments themselves. A packet is made of consecutive segments: it ends
//! with the first segment shorter than 255 bytes, and a segment of 255
//! bytes says that the packet goes on in the next segment, which may stand
//! in the next page.
//!
//! [`parse_ogg`] says what a whole stream holds. [`OggStream`] takes the
//! stream in pieces of any size and hands out the packets as they become
//! complete.

use vstd::prelude::*;

verus! {

/// Bytes in a page header.
pub const PAGE_HEADER_LEN: usize = 27;

/// The length of a segment after which its packet goes on.
pub const FULL_SEGMENT: u8 = 255;

/// The number that the four bytes at `at` spell, least significant first.
pub open spec fn le_u32_at(bytes: Seq<u8>, at: int) -> int {
    bytes[at] + bytes[at + 1] * 0x100 + bytes[at + 2] * 0x1_0000 + bytes[at + 3] * 0x100_0000
}

/// The number that the eight bytes at `at` spell, least significant first.
pub open spec fn le_u64_at(bytes: Seq<u8>, at: int) -> int {
    le_u32_at(bytes, at) + le_u32_at(bytes, at + 4) * 0x1_0000_0000
}

/// The header of a page. Numbers are stored least significant byte first.
#[derive(Debug, Clone, Copy, PartialEq, Eq)]
pub struct OggPageHeader {
    /// `OggS` at the start of every page.
    pub capture_pattern: [u8; 4],
    pub pad_byte: u8,
    pub flag: u8,
    pub gran_pos: u64,
    pub serial: u32,
    pub pagenum: u32,
    pub crc: u32,
    /// How many segments the page has.
    pub segnum: u8,
}

fn le_u32(bytes: &[u8], at: usize) -> (value: u32)
    requires
        at + 4 <= bytes@.len(),
    ensures
        value == le_u32_at(bytes@, at as int),
{
    let len: usize = bytes.len();
    assert(at + 4 <= len);
    bytes[at] as u32 + bytes[at + 1] as u32 * 0x100 + bytes[at + 2] as u32 * 0x1_0000 + bytes[at
        + 3] as u32 * 0x100_0000
}

fn le_u64(bytes: &[u8], at: usize) -> (value: u64)
    requires
        at + 8 <= bytes@.len(),
    ensures
        value == le_u64_at(bytes@, at as int),
{
    let len: usize = bytes.len();
    assert(at + 8 <= len);
    le_u32(bytes, at) as u64 + le_u32(bytes, at + 4) as u64 * 0x1_0000_0000
}

impl OggPageHeader {
    /// Whether the header is what the 27 bytes `bytes` spell.
    pub open spec fn is_unpacked(&self, bytes: Seq<u8>) -> bool {
        &&& self.capture_pattern@ == bytes.subrange(0, 4)
        &&& self.pad_byte == bytes[4]
        &&& self.flag == bytes[5]
        &&& self.gran_pos == le_u64_at(bytes, 6)
        &&& self.serial == le_u32_at(bytes, 14)
        &&& self.pagenum == le_u32_at(bytes, 18)
        &&& self.crc == le_u32_at(bytes, 22)
        &&& self.segnum == bytes[26]
    }

    fn unpack_slice(bytes: &[u8]) -> (header: OggPageHeader)
        requires
            bytes@.len() == PAGE_HEADER_LEN,
        ensures
            header.is_unpacked(bytes@),
    {
        let capture_pattern = [bytes[0], bytes[1], bytes[2], bytes[3]];
        assert(capture_pattern@ =~= bytes@.subrange(0, 4));
        OggPageHeader {
            capture_pattern,
            pad_byte: bytes[4],
            flag: bytes[5],
            gran_pos: le_u64(bytes, 6),
            serial: le_u32(bytes, 14),
            pagenum: le_u32(bytes, 18),
            crc: le_u32(bytes, 22),
            segnum: bytes[26],
        }
    }

    /// Reads a page header.
    pub fn unpack(bytes: &[u8; 27]) -> (header: OggPageHeader)
        ensures
            header.is_unpacked(bytes@),
    {
        OggPageHeader::unpack_slice(bytes.as_slice())
    }

    /// Whether the header starts with `OggS`.
    pub fn is_captured(&self) -> (yes: bool)
        ensures
            yes == (self.capture_pattern@ == seq![0x4fu8, 0x67u8, 0x67u8, 0x53u8]),
    {
        let yes = self.capture_pattern[0] == 0x4f && self.capture_pattern[1] == 0x67
            && self.capture_pattern[2] == 0x67 && self.capture_pattern[3] == 0x53;
        assert(yes ==> self.capture_pattern@ =~= seq![0x4fu8, 0x67u8, 0x67u8, 0x53u8]);
        yes
    }
}

/// What a stream holds.
pub struct OggParsed {
    /// The complete packets, in order.
    pub packets: Seq<Seq<u8>>,
    /// The lengths of the segments of the current page that are still to
    /// come; empty between pages.
    pub lacing: Seq<u8>,
    /// The packet that the stream ends in, as far as its complete segments
    /// go.
    pub carry: Seq<u8>,
    /// The unfinished segment, or the unfinished header and table of
    /// lengths, that the stream ends in.
    pub rest: Seq<u8>,
}

/// What `stream` holds, where it continues a page whose next segments have
/// the lengths `lacing` (none if a page starts here), and a packet of which
/// `carry` has been seen.
pub open spec fn parse_ogg(stream: Seq<u8>, lacing: Seq<u8>, carry: Seq<u8>) -> OggParsed
    decreases stream.len(), lacing.len(),
{
    if lacing.len() > 0 {
        let seg = lacing[0] as int;
        if stream.len() < seg {
            OggParsed { packets: Seq::empty(), lacing, carry, rest: stream }
        } else {
            let packet = carry + stream.take(seg);
            if seg < FULL_SEGMENT {
                let after = parse_ogg(stream.skip(seg), lacing.skip(1), Seq::empty());
                OggParsed { packets: seq![packet] + after.packets, ..after }
            } else {
                parse_ogg(stream.skip(seg), lacing.skip(1), packet)
            }
        }
    } else if stream.len() < PAGE_HEADER_LEN || stream.len() < PAGE_HEADER_LEN + stream[26] {
        OggParsed { packets: Seq::empty(), lacing, carry, rest: stream }
    } else {
        let table_end = PAGE_HEADER_LEN + stream[26];
        parse_ogg(
            stream.skip(table_end),
            stream.subrange(PAGE_HEADER_LEN as int, table_end),
            carry,
        )
    }
}

/// Parsing in pieces: what a stream holds is what its first part holds,
/// followed by what the unfinished end of the first part holds together
/// with the second part. Cutting a stream anywhere, even after every byte,
/// therefore loses no packet, adds none and changes none.
pub proof fn lemma_parse_ogg_in_pieces(
    first: Seq<u8>,
    second: Seq<u8>,
    lacing: Seq<u8>,
    carry: Seq<u8>,
)
    ensures
        ({
            let head = parse_ogg(first, lacing, carry);
            let tail = parse_ogg(head.rest + second, head.lacing, head.carry);
            parse_ogg(first + second, lacing, carry) == (OggParsed {
                packets: head.packets + tail.packets,
                ..tail
            })
        }),
    decreases first.len(), lacing.len(),
{
    let head = parse_ogg(first, lacing, carry);
    let tail = parse_ogg(head.rest + second, head.lacing, head.carry);
    let whole = first + second;
    if lacing.len() > 0 {
        let seg = lacing[0] as int;
        if first.len() < seg {
            assert(head.packets + tail.packets =~= tail.packets);
        } else {
            assert(whole.take(seg) =~= first.take(seg));
            assert(whole.skip(seg) =~= first.skip(seg) + second);
            let packet = carry + first.take(seg);
            if seg < FULL_SEGMENT {
                lemma_parse_ogg_in_pieces(first.skip(seg), second, lacing.skip(1), Seq::empty());
                let inner = parse_ogg(first.skip(seg), lacing.skip(1), Seq::empty());
                assert(seq![packet] + (inner.packets + tail.packets) =~= (seq![packet]
                    + inner.packets) + tail.packets);
            } else {
                lemma_parse_ogg_in_pieces(first.skip(seg), second, lacing.skip(1), packet);
            }
        }
    } else if first.len() < PAGE_HEADER_LEN || first.len() < PAGE_HEADER_LEN + first[26] {
        assert(head.packets + tail.packets =~= tail.packets);
    } else {
        let table_end = PAGE_HEADER_LEN + first[26];
        assert(whole[26] == first[26]);
        assert(whole.skip(table_end) =~= first.skip(table_end) + second);
        assert(whole.subrange(PAGE_HEADER_LEN as int, table_end) =~= first.subrange(
            PAGE_HEADER_LEN as int,
            table_end,
        ));
        lemma_parse_ogg_in_pieces(
            first.skip(table_end),
            second,
            first.subrange(PAGE_HEADER_LEN as int, table_end),
            carry,
        );
    }
}

/// What comes of taking `stream` one byte at a time, starting from what
/// `start` holds: each byte is parsed together with what the bytes before
/// it left unfinished.
pub open spec fn parse_ogg_bytewise(stream: Seq<u8>, start: OggParsed) -> OggParsed
    decreases stream.len(),
{
    if stream.len() == 0 {
        OggParsed { packets: Seq::empty(), ..start }
    } else {
        let before = parse_ogg_bytewise(stream.drop_last(), start);
        let step = parse_ogg(before.rest.push(stream.last()), before.lacing, before.carry);
        OggParsed { packets: before.packets + step.packets, ..step }
    }
}

/// One byte at a time or all at once: both ways a stream yields the same
/// packets and leaves the same unfinished end.
pub proof fn lemma_ogg_bytewise_is_whole(stream: Seq<u8>, start: OggParsed)
    requires
        parse_ogg(start.rest, start.lacing, start.carry) == (OggParsed {
            packets: Seq::empty(),
            ..start
        }),
    ensures
        parse_ogg_bytewise(stream, start) == parse_ogg(
            start.rest + stream,
            start.lacing,
            start.carry,
        ),
    decreases stream.len(),
{
    if stream.len() == 0 {
        assert(start.rest + stream =~= start.rest);
    } else {
        let front = stream.drop_last();
        lemma_ogg_bytewise_is_whole(front, start);
        lemma_parse_ogg_in_pieces(
            start.rest + front,
            seq![stream.last()],
            start.lacing,
            start.carry,
        );
        assert((start.rest + front) + seq![stream.last()] =~= start.rest + stream);
        let before = parse_ogg(start.rest + front, start.lacing, start.carry);
        assert(before.rest + seq![stream.last()] =~= before.rest.push(stream.last()));
    }
}

/// Two pieces or one: a parser that takes `first` and then `second` hands
/// out what it would hand out for both at once.
pub proof fn lemma_ogg_feed_in_pieces(start: OggParsed, first: Seq<u8>, second: Seq<u8>)
    ensures
        ({
            let head = parse_ogg(start.rest + first, start.lacing, start.carry);
            let tail = parse_ogg(head.rest + second, head.lacing, head.carry);
            parse_ogg(start.rest + (first + second), start.lacing, start.carry) == (OggParsed {
                packets: head.packets + tail.packets,
                ..tail
            })
        }),
{
    lemma_parse_ogg_in_pieces(start.rest + first, second, start.lacing, start.carry);
    assert((start.rest + first) + second =~= start.rest + (first + second));
}

/// Which part of a page the parser is in.
#[derive(Debug, Clone, Copy, PartialEq, Eq, Structural)]
pub enum ReadMode {
    Header,
    Segtable,
    Packet,
}

/// What a parser holds.
pub struct OggView {
    /// The bytes of the unfinished segment, or of the unfinished header
    /// and table of lengths.
    pub pending: Seq<u8>,
    /// The lengths of the segments of the current page that are still to
    /// come, the unfinished one first; empty between pages.
    pub lacing: Seq<u8>,
    /// The complete segments of the unfinished packet.
    pub carry: Seq<u8>,
}

/// A parser that takes an Ogg stream in pieces.
pub struct OggStream {
    read_mode: ReadMode,
    current_page_header: Option<OggPageHeader>,
    segment_table: Vec<u8>,
    /// The place in the table of the segment that is being read.
    seg_idx: usize,
    /// What has been read of the header or of the table.
    buf: Vec<u8>,
    /// What has been read of the packet.
    packet: Vec<u8>,
    /// How much of the segment has been read.
    cursor: usize,
    pending: Ghost<Seq<u8>>,
}

impl View for OggStream {
    type V = OggView;

    closed spec fn view(&self) -> OggView {
        OggView {
            pending: self.pending@,
            lacing: if self.read_mode is Packet {
                self.segment_table@.skip(self.seg_idx as int)
            } else {
                Seq::empty()
            },
            carry: self.packet@.take(self.packet@.len() - self.cursor),
        }
    }
}

/// The packets that were handed out, as byte strings.
pub open spec fn packets_view(packets: Seq<Vec<u8>>) -> Seq<Seq<u8>> {
    packets.map_values(|packet: Vec<u8>| packet@)
}

impl OggStream {
    /// What the fields have to do with what is pending.
    pub closed spec fn wf(&self) -> bool {
        let t = self.pending@;
        match self.read_mode {
            ReadMode::Header => {
                &&& t.len() < PAGE_HEADER_LEN
                &&& self.buf@ == t
                &&& self.cursor == 0
            },
            ReadMode::Segtable => {
                &&& PAGE_HEADER_LEN <= t.len() < PAGE_HEADER_LEN + t[26]
                &&& self.current_page_header matches Some(header)
                &&& header.segnum == t[26]
                &&& self.buf@ == t.skip(PAGE_HEADER_LEN as int)
                &&& self.cursor == 0
            },
            ReadMode::Packet => {
                &&& self.seg_idx < self.segment_table@.len()
                &&& t.len() < self.segment_table@[self.seg_idx as int]
                &&& self.cursor == t.len()
                &&& self.cursor <= self.packet@.len()
                &&& self.packet@.skip(self.packet@.len() - self.cursor) == t
            },
        }
    }

    /// A parser never sits on a complete segment or table: what is pending
    /// is unfinished.
    pub proof fn lemma_pending_unfinished(&self)
        requires
            self.wf(),
        ensures
            parse_ogg(self@.pending, self@.lacing, self@.carry) == (OggParsed {
                packets: Seq::empty(),
                lacing: self@.lacing,
                carry: self@.carry,
                rest: self@.pending,
            }),
    {
    }

    /// A parser at the start of a stream.
    pub fn new() -> (stream: OggStream)
        ensures
            stream.wf(),
            stream@ == (OggView {
                pending: Seq::empty(),
                lacing: Seq::empty(),
                carry: Seq::empty(),
            }),
    {
        let stream = OggStream {
            read_mode: ReadMode::Header,
            current_page_header: None,
            segment_table: Vec::new(),
            seg_idx: 0,
            buf: Vec::new(),
            packet: Vec::new(),
            cursor: 0,
            pending: Ghost(Seq::empty()),
        };
        assert(stream@.carry =~= Seq::empty());
        stream
    }

    /// With nothing pending and the segment at `seg_idx` next: passes the
    /// segments of length zero, each of which ends a packet, and finds out
    /// whether the page goes on.
    fn settle(&mut self, packets: &mut Vec<Vec<u8>>)
        requires
            old(self).seg_idx <= old(self).segment_table@.len(),
            old(self).cursor == 0,
        ensures
            final(self).wf(),
            final(self)@.pending.len() == 0,
            ({
                let parsed = parse_ogg(
                    Seq::empty(),
                    old(self).segment_table@.skip(old(self).seg_idx as int),
                    old(self).packet@,
                );
                &&& packets_view(final(packets)@) == packets_view(old(packets)@) + parsed.packets
                &&& final(self)@.lacing == parsed.lacing
                &&& final(self)@.carry == parsed.carry
                &&& final(self)@.pending == parsed.rest
            }),
    {
        let ghost table = self.segment_table@;
        let ghost start = self.seg_idx as int;
        let ghost carry = self.packet@;
        let ghost out = packets_view(packets@);
        let ghost mut emitted: Seq<Seq<u8>> = Seq::empty();
        self.pending = Ghost(Seq::empty());
        self.buf.clear();
        self.read_mode = ReadMode::Packet;
        proof {
            let here = parse_ogg(Seq::empty(), table.skip(start), carry);
            assert(packets_view(packets@) =~= out + emitted);
            assert(emitted + here.packets =~= here.packets);
        }
        while self.seg_idx < self.segment_table.len() && self.segment_table[self.seg_idx] == 0
            invariant
                self.segment_table@ == table,
                start <= self.seg_idx <= table.len(),
                self.cursor == 0,
                self.pending@.len() == 0,
                self.buf@.len() == 0,
                self.read_mode is Packet,
                packets_view(packets@) == out + emitted,
                ({
                    let here = parse_ogg(
                        Seq::empty(),
                        table.skip(self.seg_idx as int),
                        self.packet@,
                    );
                    parse_ogg(Seq::empty(), table.skip(start), carry) == (OggParsed {
                        packets: emitted + here.packets,
                        ..here
                    })
                }),
            decreases table.len() - self.seg_idx,
        {
            let ghost lacing = table.skip(self.seg_idx as int);
            let ghost so_far = self.packet@;
            let ghost before = packets_view(packets@);
            let mut packet: Vec<u8> = Vec::new();
            std::mem::swap(&mut packet, &mut self.packet);
            packets.push(packet);
            self.seg_idx = self.seg_idx + 1;
            proof {
                assert(lacing[0] == 0);
                assert(Seq::<u8>::empty().take(0) =~= Seq::<u8>::empty());
                assert(Seq::<u8>::empty().skip(0) =~= Seq::<u8>::empty());
                assert(so_far + Seq::<u8>::empty() =~= so_far);
                assert(lacing.skip(1) =~= table.skip(self.seg_idx as int));
                let next = parse_ogg(Seq::empty(), table.skip(self.seg_idx as int), self.packet@);
                assert(self.packet@ =~= Seq::<u8>::empty());
                let grown = emitted.push(so_far);
                assert(packets_view(packets@) =~= before.push(so_far));
                assert(before.push(so_far) =~= out + grown);
                assert(emitted + (seq![so_far] + next.packets) =~= grown + next.packets);
                emitted = grown;
            }
        }
        if self.seg_idx == self.segment_table.len() {
            self.read_mode = ReadMode::Header;
            proof {
                assert(table.skip(self.seg_idx as int) =~= Seq::<u8>::empty());
            }
        }
        proof {
            assert(emitted + Seq::<Seq<u8>>::empty() =~= emitted);
            assert(self.packet@.take(self.packet@.len() as int) =~= self.packet@);
            assert(self.packet@.skip(self.packet@.len() as int) =~= self.pending@);
            assert(self.buf@ =~= self.pending@);
        }
    }
}

impl OggStream {
    /// Takes one byte.
    fn push_byte(&mut self, byte: u8, packets: &mut Vec<Vec<u8>>)
        requires
            old(self).wf(),
        ensures
            final(self).wf(),
            ({
                let parsed = parse_ogg(
                    old(self)@.pending.push(byte),
                    old(self)@.lacing,
                    old(self)@.carry,
                );
                &&& packets_view(final(packets)@) == packets_view(old(packets)@) + parsed.packets
                &&& final(self)@ == (OggView {
                    pending: parsed.rest,
                    lacing: parsed.lacing,
                    carry: parsed.carry,
                })
            }),
    {
        let ghost t0 = self.pending@;
        let ghost t = t0.push(byte);
        let ghost carry = self@.carry;
        let ghost out = packets_view(packets@);
        proof {
            assert(out + Seq::<Seq<u8>>::empty() =~= out);
        }
        match self.read_mode {
            ReadMode::Header => {
                self.buf.push(byte);
                self.pending = Ghost(t);
                if self.buf.len() == PAGE_HEADER_LEN {
                    let header = OggPageHeader::unpack_slice(self.buf.as_slice());
                    self.current_page_header = Some(header);
                    self.buf.clear();
                    if header.segnum == 0 {
                        self.segment_table.clear();
                        self.seg_idx = 0;
                        proof {
                            assert(t.skip(PAGE_HEADER_LEN as int) =~= Seq::<u8>::empty());
                            assert(t.subrange(PAGE_HEADER_LEN as int, PAGE_HEADER_LEN as int)
                                =~= self.segment_table@.skip(0));
                            assert(self.packet@ =~= carry);
                            assert(t[26] == 0);
                            assert(parse_ogg(t, Seq::empty(), carry) == parse_ogg(
                                t.skip(PAGE_HEADER_LEN as int),
                                t.subrange(PAGE_HEADER_LEN as int, PAGE_HEADER_LEN as int),
                                carry,
                            ));
                        }
                        self.settle(packets);
                    } else {
                        self.read_mode = ReadMode::Segtable;
                        assert(self.buf@ =~= t.skip(PAGE_HEADER_LEN as int));
                    }
                }
            },
            ReadMode::Segtable => {
                self.buf.push(byte);
                self.pending = Ghost(t);
                assert(self.buf@ =~= t.skip(PAGE_HEADER_LEN as int));
                let segnum: u8 = match self.current_page_header {
                    Some(header) => header.segnum,
                    None => 0,
                };
                if self.buf.len() == segnum as usize {
                    std::mem::swap(&mut self.segment_table, &mut self.buf);
                    self.seg_idx = 0;
                    proof {
                        let table_end = PAGE_HEADER_LEN + t[26];
                        assert(t.skip(table_end) =~= Seq::<u8>::empty());
                        assert(t.subrange(PAGE_HEADER_LEN as int, table_end)
                            =~= self.segment_table@.skip(0));
                        assert(self.packet@ =~= carry);
                    }
                    self.settle(packets);
                }
            },
            ReadMode::Packet => {
                let ghost lacing = self@.lacing;
                let seg: u8 = self.segment_table[self.seg_idx];
                self.packet.push(byte);
                self.cursor = self.cursor + 1;
                self.pending = Ghost(t);
                proof {
                    assert(lacing[0] == seg);
                    assert(self.packet@ =~= carry + t);
                    assert(self.packet@.skip(self.packet@.len() - self.cursor) =~= t);
                    assert(self.packet@.take(self.packet@.len() - self.cursor) =~= carry);
                }
                if self.cursor == seg as usize {
                    proof {
                        assert(t.take(seg as int) =~= t);
                        assert(t.skip(seg as int) =~= Seq::<u8>::empty());
                        assert(lacing.skip(1) =~= self.segment_table@.skip(self.seg_idx + 1));
                    }
                    if seg < FULL_SEGMENT {
                        let ghost whole = self.packet@;
                        let mut packet: Vec<u8> = Vec::new();
                        std::mem::swap(&mut packet, &mut self.packet);
                        packets.push(packet);
                        proof {
                            assert(packets_view(packets@) =~= out + seq![whole]);
                            assert(self.packet@ =~= Seq::<u8>::empty());
                        }
                    }
                    let table_len: usize = self.segment_table.len();
                    assert(self.seg_idx < table_len);
                    self.seg_idx = self.seg_idx + 1;
                    self.cursor = 0;
                    let ghost mid = packets_view(packets@);
                    self.settle(packets);
                    proof {
                        let after = parse_ogg(
                            Seq::empty(),
                            lacing.skip(1),
                            if seg < FULL_SEGMENT {
                                Seq::empty()
                            } else {
                                carry + t
                            },
                        );
                        assert(packets_view(packets@) == mid + after.packets);
                        if seg < FULL_SEGMENT {
                            assert((out + seq![carry + t]) + after.packets =~= out + (seq![
                                carry + t,
                            ] + after.packets));
                        }
                    }
                }
            },
        }
    }

    /// Takes the next piece of the stream and hands out the packets that it
    /// completes, in order. Together with what was pending, the piece is
    /// parsed as [`parse_ogg`] says; what it leaves unfinished is pending
    /// afterwards.
    pub fn feed(&mut self, chunk: &[u8]) -> (packets: Vec<Vec<u8>>)
        requires
            old(self).wf(),
        ensures
            final(self).wf(),
            parse_ogg(old(self)@.pending + chunk@, old(self)@.lacing, old(self)@.carry)
                == (OggParsed {
                packets: packets_view(packets@),
                lacing: final(self)@.lacing,
                carry: final(self)@.carry,
                rest: final(self)@.pending,
            }),
    {
        let ghost start = self@;
        let mut packets: Vec<Vec<u8>> = Vec::new();
        let mut i: usize = 0;
        proof {
            self.lemma_pending_unfinished();
            assert(start.pending + chunk@.take(0) =~= start.pending);
            assert(packets_view(packets@) =~= Seq::empty());
        }
        while i < chunk.len()
            invariant
                i <= chunk@.len(),
                self.wf(),
                parse_ogg(start.pending + chunk@.take(i as int), start.lacing, start.carry)
                    == (OggParsed {
                    packets: packets_view(packets@),
                    lacing: self@.lacing,
                    carry: self@.carry,
                    rest: self@.pending,
                }),
            decreases chunk@.len() - i,
        {
            let ghost before = self@;
            proof {
                let byte = chunk@[i as int];
                lemma_parse_ogg_in_pieces(
                    start.pending + chunk@.take(i as int),
                    seq![byte],
                    start.lacing,
                    start.carry,
                );
                assert((start.pending + chunk@.take(i as int)) + seq![byte] =~= start.pending
                    + chunk@.take(i + 1));
                assert(before.pending + seq![byte] =~= before.pending.push(byte));
            }
            self.push_byte(chunk[i], &mut packets);
            i += 1;
        }
        assert(chunk@.take(i as int) =~= chunk@);
        packets
    }
}

} // verus!
