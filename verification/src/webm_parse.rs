//! Opus frames out of a WebM stream.
//!
//! A WebM stream is a run of EBML elements. An element starts with its id
//! and the size of its data, both variable-length integers whose first byte
//! tells their length: the number of its leading zero bits, plus one. The
//! header, the segment and the clusters are entered: what follows their
//! size is the next element. Every other element is followed by its data.
//! The data of a SimpleBlock, without its first four bytes, is one Opus
//! frame.
//!
//! [`parse`] says what a whole stream holds. [`WebmStream`] takes the stream
//! in pieces of any size and hands out the frames as they become complete.

use crate::endian::zeros;
use vstd::prelude::*;
use vstd::std_specs::bits::{axiom_u8_leading_zeros, u8_leading_zeros};

verus! {

/// Bytes at the start of a SimpleBlock's data that are not part of the
/// frame: the track number, the timecode and the flags.
pub const BLOCK_PREFIX_LEN: usize = 4;

/// The elements that the parser tells apart.
#[derive(Debug, Clone, Copy, PartialEq, Eq, Structural)]
pub enum EbmlElementId {
    Header,
    DocType,
    Segment,
    SeekHead,
    Info,
    TimecodeScale,
    Tracks,
    TrackEntry,
    CodecID,
    Cluster,
    Timecode,
    SimpleBlock,
    BlockGroup,
    Block,
    Cues,
    Audio,
    AudioChannels,
    Void,
    /// Any other id.
    Unknown(u32),
}

impl EbmlElementId {
    /// The element that an id stands for.
    pub open spec fn of(id: u32) -> EbmlElementId {
        if id == 0x1A45DFA3 {
            EbmlElementId::Header
        } else if id == 0x4282 {
            EbmlElementId::DocType
        } else if id == 0x18538067 {
            EbmlElementId::Segment
        } else if id == 0x114D9B74 {
            EbmlElementId::SeekHead
        } else if id == 0x1549A966 {
            EbmlElementId::Info
        } else if id == 0x2AD7B1 {
            EbmlElementId::TimecodeScale
        } else if id == 0x1654AE6B {
            EbmlElementId::Tracks
        } else if id == 0xAE {
            EbmlElementId::TrackEntry
        } else if id == 0x86 {
            EbmlElementId::CodecID
        } else if id == 0x1F43B675 {
            EbmlElementId::Cluster
        } else if id == 0xE7 {
            EbmlElementId::Timecode
        } else if id == 0xA3 {
            EbmlElementId::SimpleBlock
        } else if id == 0xA0 {
            EbmlElementId::BlockGroup
        } else if id == 0xA1 {
            EbmlElementId::Block
        } else if id == 0x1C53BB6B {
            EbmlElementId::Cues
        } else if id == 0xE1 {
            EbmlElementId::Audio
        } else if id == 0x9F {
            EbmlElementId::AudioChannels
        } else if id == 0xEC {
            EbmlElementId::Void
        } else {
            EbmlElementId::Unknown(id)
        }
    }

    /// Whether the element is entered rather than passed over.
    pub open spec fn is_container(self) -> bool {
        self is Header || self is Segment || self is Cluster
    }

    /// Whether the data of the element is looked at.
    pub open spec fn is_read(self) -> bool {
        self is DocType || self is SimpleBlock
    }

    /// The element that `id` stands for.
    pub fn from_id(id: u32) -> (element: EbmlElementId)
        ensures
            element == EbmlElementId::of(id),
    {
        match id {
            0x1A45DFA3 => EbmlElementId::Header,
            0x4282 => EbmlElementId::DocType,
            0x18538067 => EbmlElementId::Segment,
            0x114D9B74 => EbmlElementId::SeekHead,
            0x1549A966 => EbmlElementId::Info,
            0x2AD7B1 => EbmlElementId::TimecodeScale,
            0x1654AE6B => EbmlElementId::Tracks,
            0xAE => EbmlElementId::TrackEntry,
            0x86 => EbmlElementId::CodecID,
            0x1F43B675 => EbmlElementId::Cluster,
            0xE7 => EbmlElementId::Timecode,
            0xA3 => EbmlElementId::SimpleBlock,
            0xA0 => EbmlElementId::BlockGroup,
            0xA1 => EbmlElementId::Block,
            0x1C53BB6B => EbmlElementId::Cues,
            0xE1 => EbmlElementId::Audio,
            0x9F => EbmlElementId::AudioChannels,
            0xEC => EbmlElementId::Void,
            _ => EbmlElementId::Unknown(id),
        }
    }

    /// Whether the element is entered rather than passed over.
    pub fn enters(&self) -> (yes: bool)
        ensures
            yes == self.is_container(),
    {
        match self {
            EbmlElementId::Header | EbmlElementId::Segment | EbmlElementId::Cluster => true,
            _ => false,
        }
    }

    /// Whether the data of the element is looked at.
    pub fn reads(&self) -> (yes: bool)
        ensures
            yes == self.is_read(),
    {
        match self {
            EbmlElementId::DocType | EbmlElementId::SimpleBlock => true,
            _ => false,
        }
    }
}

/// The length in bytes of a variable-length integer that starts with
/// `first`: from 1, for a first byte with its top bit set, to 9, for a
/// first byte of zero.
pub open spec fn vint_len(first: u8) -> int {
    if first >= 0x80 {
        1
    } else if first >= 0x40 {
        2
    } else if first >= 0x20 {
        3
    } else if first >= 0x10 {
        4
    } else if first >= 0x08 {
        5
    } else if first >= 0x04 {
        6
    } else if first >= 0x02 {
        7
    } else if first >= 0x01 {
        8
    } else {
        9
    }
}

/// The length of a variable-length integer is the number of leading zero
/// bits of its first byte, plus one.
pub proof fn lemma_vint_len_counts_leading_zeros(first: u8)
    ensures
        vint_len(first) == u8_leading_zeros(first) + 1,
{
    axiom_u8_leading_zeros(first);
    let zeros = u8_leading_zeros(first);
    if zeros == 0 {
        assert((first >> 7u8) & 1u8 != 0u8 ==> first >= 0x80) by (bit_vector);
    } else if zeros == 1 {
        assert(first >> 7u8 == 0 && (first >> 6u8) & 1u8 != 0u8 ==> 0x40 <= first < 0x80)
            by (bit_vector);
    } else if zeros == 2 {
        assert(first >> 6u8 == 0 && (first >> 5u8) & 1u8 != 0u8 ==> 0x20 <= first < 0x40)
            by (bit_vector);
    } else if zeros == 3 {
        assert(first >> 5u8 == 0 && (first >> 4u8) & 1u8 != 0u8 ==> 0x10 <= first < 0x20)
            by (bit_vector);
    } else if zeros == 4 {
        assert(first >> 4u8 == 0 && (first >> 3u8) & 1u8 != 0u8 ==> 0x08 <= first < 0x10)
            by (bit_vector);
    } else if zeros == 5 {
        assert(first >> 3u8 == 0 && (first >> 2u8) & 1u8 != 0u8 ==> 0x04 <= first < 0x08)
            by (bit_vector);
    } else if zeros == 6 {
        assert(first >> 2u8 == 0 && (first >> 1u8) & 1u8 != 0u8 ==> 0x02 <= first < 0x04)
            by (bit_vector);
    } else if zeros == 7 {
        assert(first >> 1u8 == 0 && (first >> 0u8) & 1u8 != 0u8 ==> first == 0x01)
            by (bit_vector);
    }
}

/// What remains of the first byte of a size of `len` bytes when the bit
/// that marks its length is cleared.
pub open spec fn size_mask(len: int) -> u8 {
    if len == 1 {
        0x7f
    } else if len == 2 {
        0x3f
    } else if len == 3 {
        0x1f
    } else if len == 4 {
        0x0f
    } else if len == 5 {
        0x07
    } else if len == 6 {
        0x03
    } else if len == 7 {
        0x01
    } else {
        0x00
    }
}

/// An id so far, with one more byte: ids keep their length marker, and of
/// an id longer than four bytes the last four bytes count.
pub open spec fn id_with(id: u32, byte: u8) -> u32 {
    (id << 8) | (byte as u32)
}

/// A size so far, with one more byte.
pub open spec fn size_with(size: u64, byte: u8) -> u64 {
    (size << 8) | (byte as u64)
}

/// The id that starts with `first` and goes on with `rest`.
pub open spec fn id_value(first: u32, rest: Seq<u8>) -> u32
    decreases rest.len(),
{
    if rest.len() == 0 {
        first
    } else {
        id_with(id_value(first, rest.drop_last()), rest.last())
    }
}

/// The size that starts with `first`, its length marker cleared, and goes
/// on with `rest`.
pub open spec fn size_value(first: u64, rest: Seq<u8>) -> u64
    decreases rest.len(),
{
    if rest.len() == 0 {
        first
    } else {
        size_with(size_value(first, rest.drop_last()), rest.last())
    }
}

/// The start of an element.
pub struct ElementHeader {
    pub id: u32,
    /// How many bytes of data the element announces.
    pub size: u64,
    /// How many bytes the id and the size take together.
    pub len: int,
}

/// Where the size of the element that starts `stream` begins, if its first
/// byte is there.
pub open spec fn id_len(stream: Seq<u8>) -> int {
    vint_len(stream[0])
}

/// The header of the element that starts `stream`, or `None` where the
/// stream ends before the header does.
pub open spec fn header(stream: Seq<u8>) -> Option<ElementHeader> {
    if stream.len() < 1 || stream.len() <= id_len(stream) {
        None
    } else {
        let n = id_len(stream);
        let m = vint_len(stream[n]);
        if stream.len() < n + m {
            None
        } else {
            Some(
                ElementHeader {
                    id: id_value(stream[0] as u32, stream.subrange(1, n)),
                    size: size_value(
                        (stream[n] & size_mask(m)) as u64,
                        stream.subrange(n + 1, n + m),
                    ),
                    len: n + m,
                },
            )
        }
    }
}

/// How many bytes the element that starts `stream` takes before the next
/// one begins: its header alone where it is entered, its header and its
/// data otherwise. `None` where the stream ends before the element does.
pub open spec fn element_len(stream: Seq<u8>) -> Option<int> {
    match header(stream) {
        None => None,
        Some(h) => if EbmlElementId::of(h.id).is_container() {
            Some(h.len)
        } else if stream.len() >= h.len + h.size {
            Some(h.len + h.size)
        } else {
            None
        },
    }
}

/// The frames in one complete element: the data of a SimpleBlock without
/// its first four bytes. A SimpleBlock with less data than that holds no
/// frame.
pub open spec fn frames_in(element: Seq<u8>) -> Seq<Seq<u8>> {
    match header(element) {
        Some(h) => if EbmlElementId::of(h.id) is SimpleBlock && h.size >= BLOCK_PREFIX_LEN {
            seq![element.subrange(h.len + BLOCK_PREFIX_LEN, h.len + h.size)]
        } else {
            Seq::empty()
        },
        None => Seq::empty(),
    }
}

/// The document type after one complete element: the data of a DocType
/// element, and `before` after any other.
pub open spec fn doc_type_after(element: Seq<u8>, before: Option<Seq<u8>>) -> Option<Seq<u8>> {
    match header(element) {
        Some(h) => if EbmlElementId::of(h.id) is DocType {
            Some(element.subrange(h.len as int, h.len + h.size))
        } else {
            before
        },
        None => before,
    }
}

/// What a stream holds.
pub struct Parsed {
    /// The Opus frames of the complete elements, in order.
    pub frames: Seq<Seq<u8>>,
    /// The document type that the stream last declared, if any.
    pub doc_type: Option<Seq<u8>>,
    /// The start of an element that the stream ends in.
    pub rest: Seq<u8>,
}

/// What `stream` holds, where `doc_type` was declared before it.
pub open spec fn parse(stream: Seq<u8>, doc_type: Option<Seq<u8>>) -> Parsed
    decreases stream.len(),
{
    match element_len(stream) {
        Some(n) if 0 < n <= stream.len() => {
            let element = stream.take(n);
            let after = parse(stream.skip(n), doc_type_after(element, doc_type));
            Parsed { frames: frames_in(element) + after.frames, ..after }
        },
        _ => Parsed { frames: Seq::empty(), doc_type, rest: stream },
    }
}

/// The length of a variable-length integer is between 1 and 9.
pub proof fn lemma_vint_len(first: u8)
    ensures
        1 <= vint_len(first) <= 9,
{
}

/// An element takes at least its two header bytes and never more than the
/// stream that holds it.
pub proof fn lemma_element_len_bounds(stream: Seq<u8>)
    ensures
        element_len(stream) matches Some(n) ==> 2 <= n <= stream.len(),
{
    if stream.len() >= 1 {
        lemma_vint_len(stream[0]);
        if stream.len() > id_len(stream) {
            lemma_vint_len(stream[id_len(stream)]);
        }
    }
}

/// What a header says does not change when the stream goes on.
pub proof fn lemma_header_stable(stream: Seq<u8>, more: Seq<u8>)
    requires
        header(stream) is Some,
    ensures
        header(stream + more) == header(stream),
{
    let longer = stream + more;
    lemma_vint_len(stream[0]);
    let n = id_len(stream);
    lemma_vint_len(stream[n]);
    let m = vint_len(stream[n]);
    assert(longer[0] == stream[0]);
    assert(longer[n] == stream[n]);
    assert(longer.subrange(1, n) =~= stream.subrange(1, n));
    assert(longer.subrange(n + 1, n + m) =~= stream.subrange(n + 1, n + m));
}

/// A complete element stays what it is when the stream goes on.
pub proof fn lemma_element_stable(stream: Seq<u8>, more: Seq<u8>)
    requires
        element_len(stream) is Some,
    ensures
        element_len(stream + more) == element_len(stream),
        (stream + more).take(element_len(stream)->0) == stream.take(element_len(stream)->0),
        (stream + more).skip(element_len(stream)->0) == stream.skip(element_len(stream)->0) + more,
{
    lemma_header_stable(stream, more);
    lemma_element_len_bounds(stream);
    let n = element_len(stream)->0;
    assert((stream + more).take(n) =~= stream.take(n));
    assert((stream + more).skip(n) =~= stream.skip(n) + more);
}

/// Parsing in pieces: what a stream holds is what its first part holds,
/// followed by what the unfinished end of the first part holds together
/// with the second part. Cutting a stream anywhere, even after every byte,
/// therefore loses no frame, adds none and changes none.
pub proof fn lemma_parse_in_pieces(first: Seq<u8>, second: Seq<u8>, doc_type: Option<Seq<u8>>)
    ensures
        ({
            let head = parse(first, doc_type);
            let tail = parse(head.rest + second, head.doc_type);
            parse(first + second, doc_type) == (Parsed {
                frames: head.frames + tail.frames,
                ..tail
            })
        }),
    decreases first.len(),
{
    let head = parse(first, doc_type);
    let tail = parse(head.rest + second, head.doc_type);
    lemma_element_len_bounds(first);
    match element_len(first) {
        Some(n) => {
            lemma_element_stable(first, second);
            let element = first.take(n);
            let then = doc_type_after(element, doc_type);
            lemma_parse_in_pieces(first.skip(n), second, then);
            let inner = parse(first.skip(n), then);
            assert(head.frames == frames_in(element) + inner.frames);
            assert(head.rest == inner.rest);
            assert(head.doc_type == inner.doc_type);
            let whole = parse(first + second, doc_type);
            assert(whole.frames == frames_in(element) + parse(
                first.skip(n) + second,
                then,
            ).frames);
            assert(frames_in(element) + (inner.frames + tail.frames) =~= (frames_in(element)
                + inner.frames) + tail.frames);
        },
        None => {
            assert(head.rest == first);
            assert(head.frames + tail.frames =~= tail.frames);
        },
    }
}

/// What comes of taking `stream` one byte at a time, starting with
/// `pending` in hand: each byte is parsed together with what the bytes
/// before it left unfinished.
pub open spec fn parse_bytewise(
    stream: Seq<u8>,
    pending: Seq<u8>,
    doc_type: Option<Seq<u8>>,
) -> Parsed
    decreases stream.len(),
{
    if stream.len() == 0 {
        Parsed { frames: Seq::empty(), doc_type, rest: pending }
    } else {
        let before = parse_bytewise(stream.drop_last(), pending, doc_type);
        let step = parse(before.rest.push(stream.last()), before.doc_type);
        Parsed { frames: before.frames + step.frames, ..step }
    }
}

/// One byte at a time or all at once: both ways a stream yields the same
/// frames, declares the same document type and leaves the same unfinished
/// end.
pub proof fn lemma_bytewise_is_whole(stream: Seq<u8>, pending: Seq<u8>, doc_type: Option<Seq<u8>>)
    requires
        element_len(pending) is None,
    ensures
        parse_bytewise(stream, pending, doc_type) == parse(pending + stream, doc_type),
    decreases stream.len(),
{
    if stream.len() == 0 {
        assert(pending + stream =~= pending);
    } else {
        let front = stream.drop_last();
        lemma_bytewise_is_whole(front, pending, doc_type);
        lemma_parse_in_pieces(pending + front, seq![stream.last()], doc_type);
        assert((pending + front) + seq![stream.last()] =~= pending + stream);
        let before = parse(pending + front, doc_type);
        assert(before.rest + seq![stream.last()] =~= before.rest.push(stream.last()));
    }
}

/// Two pieces or one: a parser that has `pending` in hand and takes `first`
/// and then `second` hands out what it would hand out for both at once.
pub proof fn lemma_feed_in_pieces(
    pending: Seq<u8>,
    doc_type: Option<Seq<u8>>,
    first: Seq<u8>,
    second: Seq<u8>,
)
    ensures
        ({
            let head = parse(pending + first, doc_type);
            let tail = parse(head.rest + second, head.doc_type);
            parse(pending + (first + second), doc_type) == (Parsed {
                frames: head.frames + tail.frames,
                ..tail
            })
        }),
{
    lemma_parse_in_pieces(pending + first, second, doc_type);
    assert((pending + first) + second =~= pending + (first + second));
}

/// How many of the bytes to come after `pending` are bound to be passed
/// over unread: what is still missing of the data of an element that is
/// neither entered nor looked at.
pub open spec fn passing_over(pending: Seq<u8>) -> int {
    match header(pending) {
        Some(h) => {
            let element = EbmlElementId::of(h.id);
            if !element.is_container() && !element.is_read() && pending.len() < h.len + h.size {
                h.len + h.size - pending.len()
            } else {
                0
            }
        },
        None => 0,
    }
}

/// What is passed over does not matter: two streams that differ only in
/// bytes that are passed over hold the same frames and declare the same
/// document type, and once the element that is passed over is complete
/// they leave the same unfinished end.
pub proof fn lemma_passed_over_is_immaterial(
    pending: Seq<u8>,
    doc_type: Option<Seq<u8>>,
    one: Seq<u8>,
    other: Seq<u8>,
    more: Seq<u8>,
)
    requires
        one.len() == other.len() <= passing_over(pending),
    ensures
        ({
            let first = parse(pending + one + more, doc_type);
            let second = parse(pending + other + more, doc_type);
            &&& first.frames == second.frames
            &&& first.doc_type == second.doc_type
            &&& one.len() + more.len() >= passing_over(pending) ==> first.rest == second.rest
        }),
{
    let a = pending + one + more;
    let b = pending + other + more;
    if passing_over(pending) == 0 {
        assert(one =~= other);
    } else {
        let h = header(pending)->0;
        let end = h.len + h.size;
        lemma_header_stable(pending, one + more);
        lemma_header_stable(pending, other + more);
        assert(pending + (one + more) =~= a);
        assert(pending + (other + more) =~= b);
        if a.len() >= end {
            lemma_header_stable(pending, (one + more).take(end - pending.len()));
            lemma_header_stable(pending, (other + more).take(end - pending.len()));
            assert(a.take(end) =~= pending + (one + more).take(end - pending.len()));
            assert(b.take(end) =~= pending + (other + more).take(end - pending.len()));
            assert(a.skip(end) =~= b.skip(end));
            assert(frames_in(a.take(end)) + parse(a.skip(end), doc_type).frames =~= parse(
                a.skip(end),
                doc_type,
            ).frames);
        }
    }
}

/// Where the parser stands within an element.
#[derive(Debug, Clone, Copy, PartialEq, Eq, Structural)]
pub enum ParserStateMachine {
    /// The next byte starts an id.
    ReadElementIdLength,
    /// Inside an id; holds its length and its first byte.
    ReadElementId(usize, u32),
    /// The next byte starts a size.
    ReadElementSizeLength,
    /// Inside a size; holds its length and its first byte.
    ReadElementSize(usize, u64),
    /// Inside the data of an element; holds its size.
    ReadElementData(u64),
}

/// What a parser holds.
pub struct WebmView {
    /// The bytes of the element that the parser is in the middle of.
    pub pending: Seq<u8>,
    /// The document type that the stream last declared, if any.
    pub doc_type: Option<Seq<u8>>,
}

/// A parser that takes a WebM stream in pieces.
pub struct WebmStream {
    parser_state: ParserStateMachine,
    /// The element whose size or data is being read.
    element: EbmlElementId,
    /// What has been read of an id after its first byte, of a size after
    /// its first byte, or of the data of an element that is looked at.
    buf: Vec<u8>,
    /// How much of the element's data has gone by.
    cursor: u64,
    doc_type: Option<Vec<u8>>,
    pending: Ghost<Seq<u8>>,
}

impl View for WebmStream {
    type V = WebmView;

    closed spec fn view(&self) -> WebmView {
        WebmView {
            pending: self.pending@,
            doc_type: match self.doc_type {
                Some(doc_type) => Some(doc_type@),
                None => None,
            },
        }
    }
}

/// The frames that were handed out, as byte strings.
pub open spec fn frames_view(frames: Seq<Vec<u8>>) -> Seq<Seq<u8>> {
    frames.map_values(|frame: Vec<u8>| frame@)
}

/// Whether `data` is the document type of a WebM file.
pub fn is_webm(data: &[u8]) -> (yes: bool)
    ensures
        yes == (data@ == seq![0x77u8, 0x65u8, 0x62u8, 0x6du8]),
{
    let yes = data.len() == 4 && data[0] == 0x77 && data[1] == 0x65 && data[2] == 0x62 && data[3]
        == 0x6d;
    assert(yes ==> data@ =~= seq![0x77u8, 0x65u8, 0x62u8, 0x6du8]);
    yes
}

fn vint_len_of(first: u8) -> (len: usize)
    ensures
        len == vint_len(first),
        1 <= len <= 9,
{
    proof {
        axiom_u8_leading_zeros(first);
        lemma_vint_len_counts_leading_zeros(first);
    }
    first.leading_zeros() as usize + 1
}

fn size_mask_of(len: usize) -> (mask: u8)
    ensures
        mask == size_mask(len as int),
{
    match len {
        1 => 0x7f,
        2 => 0x3f,
        3 => 0x1f,
        4 => 0x0f,
        5 => 0x07,
        6 => 0x03,
        7 => 0x01,
        _ => 0x00,
    }
}

fn read_id(first: u32, rest: &Vec<u8>) -> (id: u32)
    ensures
        id == id_value(first, rest@),
{
    let mut id = first;
    let mut i: usize = 0;
    while i < rest.len()
        invariant
            i <= rest@.len(),
            id == id_value(first, rest@.take(i as int)),
        decreases rest@.len() - i,
    {
        assert(rest@.take(i + 1).drop_last() =~= rest@.take(i as int));
        id = (id << 8) | (rest[i] as u32);
        i += 1;
    }
    assert(rest@.take(i as int) =~= rest@);
    id
}

fn read_size(first: u64, rest: &Vec<u8>) -> (size: u64)
    ensures
        size == size_value(first, rest@),
{
    let mut size = first;
    let mut i: usize = 0;
    while i < rest.len()
        invariant
            i <= rest@.len(),
            size == size_value(first, rest@.take(i as int)),
        decreases rest@.len() - i,
    {
        assert(rest@.take(i + 1).drop_last() =~= rest@.take(i as int));
        size = (size << 8) | (rest[i] as u64);
        i += 1;
    }
    assert(rest@.take(i as int) =~= rest@);
    size
}

impl WebmStream {
    /// What the fields have to do with the bytes of the unfinished element.
    pub closed spec fn wf(&self) -> bool {
        let t = self.pending@;
        match self.parser_state {
            ParserStateMachine::ReadElementIdLength => {
                &&& t.len() == 0
                &&& self.buf@.len() == 0
                &&& self.cursor == 0
            },
            ParserStateMachine::ReadElementId(n, first) => {
                &&& 1 <= t.len() < n
                &&& n == id_len(t)
                &&& first == t[0] as u32
                &&& self.buf@ == t.skip(1)
                &&& self.cursor == 0
            },
            ParserStateMachine::ReadElementSizeLength => {
                &&& 1 <= t.len()
                &&& t.len() == id_len(t)
                &&& self.element == EbmlElementId::of(
                    id_value(t[0] as u32, t.subrange(1, id_len(t))),
                )
                &&& self.buf@.len() == 0
                &&& self.cursor == 0
            },
            ParserStateMachine::ReadElementSize(m, first) => {
                let n = id_len(t);
                &&& 1 <= n < t.len()
                &&& m == vint_len(t[n])
                &&& t.len() < n + m
                &&& first == t[n] as u64
                &&& self.element == EbmlElementId::of(id_value(t[0] as u32, t.subrange(1, n)))
                &&& self.buf@ == t.skip(n + 1)
                &&& self.cursor == 0
            },
            ParserStateMachine::ReadElementData(size) => {
                &&& header(t) matches Some(h)
                &&& size == h.size
                &&& self.element == EbmlElementId::of(h.id)
                &&& !self.element.is_container()
                &&& self.cursor == t.len() - h.len
                &&& self.cursor < size
                &&& if self.element.is_read() {
                    self.buf@ == t.skip(h.len)
                } else {
                    self.buf@.len() == 0
                }
            },
        }
    }

    /// A parser never sits on a complete element: what is pending is the
    /// unfinished start of one.
    pub proof fn lemma_pending_unfinished(&self)
        requires
            self.wf(),
        ensures
            element_len(self@.pending) is None,
            parse(self@.pending, self@.doc_type) == (Parsed {
                frames: Seq::empty(),
                doc_type: self@.doc_type,
                rest: self@.pending,
            }),
    {
        let t = self.pending@;
        if t.len() >= 1 {
            lemma_vint_len(t[0]);
            if t.len() > id_len(t) {
                lemma_vint_len(t[id_len(t)]);
            }
        }
    }

    /// A parser at the start of a stream.
    pub fn new() -> (stream: WebmStream)
        ensures
            stream.wf(),
            stream@ == (WebmView { pending: Seq::empty(), doc_type: None }),
    {
        WebmStream {
            parser_state: ParserStateMachine::ReadElementIdLength,
            element: EbmlElementId::Void,
            buf: Vec::new(),
            cursor: 0,
            doc_type: None,
            pending: Ghost(Seq::empty()),
        }
    }

    /// The document type that the stream last declared, if any.
    pub fn doc_type(&self) -> (doc_type: Option<&Vec<u8>>)
        ensures
            match doc_type {
                Some(data) => self@.doc_type == Some(data@),
                None => self@.doc_type is None,
            },
    {
        self.doc_type.as_ref()
    }

    /// Leaves the element that has just been completed by the bytes in
    /// `pending`, and hands out its frame if it has one.
    fn finish_element(&mut self, Ghost(element): Ghost<Seq<u8>>) -> (frame: Option<Vec<u8>>)
        requires
            header(element) matches Some(h) && {
                &&& element.len() == h.len + h.size
                &&& old(self).element == EbmlElementId::of(h.id)
                &&& !old(self).element.is_container()
                &&& if old(self).element.is_read() {
                    old(self).buf@ == element.skip(h.len)
                } else {
                    old(self).buf@.len() == 0
                }
            },
        ensures
            final(self).wf(),
            final(self)@.pending.len() == 0,
            final(self)@.doc_type == doc_type_after(element, old(self)@.doc_type),
            match frame {
                Some(frame) => frames_in(element) == seq![frame@],
                None => frames_in(element).len() == 0,
            },
    {
        let ghost h = header(element)->0;
        let mut data: Vec<u8> = Vec::new();
        std::mem::swap(&mut data, &mut self.buf);
        self.parser_state = ParserStateMachine::ReadElementIdLength;
        self.cursor = 0;
        self.pending = Ghost(Seq::empty());
        match self.element {
            EbmlElementId::SimpleBlock => {
                if data.len() >= BLOCK_PREFIX_LEN {
                    let frame = data.split_off(BLOCK_PREFIX_LEN);
                    assert(frame@ =~= element.subrange(h.len + BLOCK_PREFIX_LEN, h.len + h.size));
                    Some(frame)
                } else {
                    None
                }
            },
            EbmlElementId::DocType => {
                assert(data@ =~= element.subrange(h.len as int, h.len + h.size));
                self.doc_type = Some(data);
                None
            },
            _ => None,
        }
    }

    /// Enters the data of the element whose header has just been completed
    /// by the bytes in `pending`.
    fn begin_data(&mut self, size: u64) -> (frame: Option<Vec<u8>>)
        requires
            header(old(self).pending@) matches Some(h) && {
                &&& old(self).pending@.len() == h.len
                &&& size == h.size
                &&& old(self).element == EbmlElementId::of(h.id)
            },
            old(self).buf@.len() == 0,
        ensures
            final(self).wf(),
            step_outcome(old(self).pending@, old(self)@.doc_type, final(self)@, frame),
    {
        let ghost t = self.pending@;
        proof {
            lemma_element_len_bounds(t);
            assert(self.buf@ =~= t.skip(t.len() as int));
        }
        if self.element.enters() {
            self.parser_state = ParserStateMachine::ReadElementIdLength;
            self.cursor = 0;
            self.pending = Ghost(Seq::empty());
            None
        } else if size == 0 {
            self.finish_element(Ghost(t))
        } else {
            self.parser_state = ParserStateMachine::ReadElementData(size);
            self.cursor = 0;
            None
        }
    }

    /// Takes one byte.
    fn push_byte(&mut self, byte: u8) -> (frame: Option<Vec<u8>>)
        requires
            old(self).wf(),
        ensures
            final(self).wf(),
            step_outcome(old(self)@.pending.push(byte), old(self)@.doc_type, final(self)@, frame),
    {
        let ghost t0 = self.pending@;
        let ghost t = t0.push(byte);
        proof {
            lemma_vint_len(t[0]);
            if t.len() > id_len(t) {
                lemma_vint_len(t[id_len(t)]);
            }
        }
        self.pending = Ghost(t);
        match self.parser_state {
            ParserStateMachine::ReadElementIdLength => {
                let n = vint_len_of(byte);
                if n == 1 {
                    self.element = EbmlElementId::from_id(byte as u32);
                    self.parser_state = ParserStateMachine::ReadElementSizeLength;
                    assert(t.subrange(1, 1) =~= Seq::<u8>::empty());
                } else {
                    self.parser_state = ParserStateMachine::ReadElementId(n, byte as u32);
                    assert(self.buf@ =~= t.skip(1));
                }
                None
            },
            ParserStateMachine::ReadElementId(n, first) => {
                self.buf.push(byte);
                assert(self.buf@ =~= t.skip(1));
                if self.buf.len() == n - 1 {
                    assert(t.skip(1) =~= t.subrange(1, n as int));
                    let id = read_id(first, &self.buf);
                    self.element = EbmlElementId::from_id(id);
                    self.buf.clear();
                    self.parser_state = ParserStateMachine::ReadElementSizeLength;
                }
                None
            },
            ParserStateMachine::ReadElementSizeLength => {
                let m = vint_len_of(byte);
                let ghost n = id_len(t0);
                assert(t.subrange(1, n) =~= t0.subrange(1, n));
                if m == 1 {
                    assert(t.subrange(n + 1, n + 1) =~= Seq::<u8>::empty());
                    self.begin_data((byte & 0x7f) as u64)
                } else {
                    self.parser_state = ParserStateMachine::ReadElementSize(m, byte as u64);
                    assert(self.buf@ =~= t.skip(n + 1));
                    None
                }
            },
            ParserStateMachine::ReadElementSize(m, first) => {
                let ghost n = id_len(t0);
                assert(t.subrange(1, n) =~= t0.subrange(1, n));
                self.buf.push(byte);
                assert(self.buf@ =~= t.skip(n + 1));
                if self.buf.len() == m - 1 {
                    assert(t.skip(n + 1) =~= t.subrange(n + 1, n + m));
                    let masked = (first as u8) & size_mask_of(m);
                    let size = read_size(masked as u64, &self.buf);
                    self.buf.clear();
                    self.begin_data(size)
                } else {
                    None
                }
            },
            ParserStateMachine::ReadElementData(size) => {
                proof {
                    lemma_header_stable(t0, seq![byte]);
                    assert(t0 + seq![byte] =~= t);
                }
                let ghost h = header(t)->0;
                if self.element.reads() {
                    self.buf.push(byte);
                    assert(self.buf@ =~= t.skip(h.len));
                }
                self.cursor = self.cursor + 1;
                if self.cursor == size {
                    self.finish_element(Ghost(t))
                } else {
                    None
                }
            },
        }
    }

    /// How many of the bytes to come the parser is bound to pass over
    /// unread. A caller that can seek may seek past as many and say so with
    /// [`skip`](WebmStream::skip) instead of feeding them.
    pub fn skippable(&self) -> (count: u64)
        requires
            self.wf(),
        ensures
            count == passing_over(self@.pending),
    {
        proof {
            let t = self.pending@;
            if t.len() >= 1 {
                lemma_vint_len(t[0]);
                if t.len() > id_len(t) {
                    lemma_vint_len(t[id_len(t)]);
                }
            }
        }
        match self.parser_state {
            ParserStateMachine::ReadElementData(size) => {
                if self.element.reads() {
                    0
                } else {
                    size - self.cursor
                }
            },
            _ => 0,
        }
    }

    /// Passes over `count` bytes without being shown them: the parser is
    /// left as if it had been fed `count` bytes, which hold no frame.
    pub fn skip(&mut self, count: u64)
        requires
            old(self).wf(),
            count <= passing_over(old(self)@.pending),
        ensures
            final(self).wf(),
            parse(old(self)@.pending + zeros(count as nat), old(self)@.doc_type) == (Parsed {
                frames: Seq::empty(),
                doc_type: final(self)@.doc_type,
                rest: final(self)@.pending,
            }),
    {
        let ghost t0 = self.pending@;
        let ghost t = t0 + zeros(count as nat);
        if count == 0 {
            proof {
                self.lemma_pending_unfinished();
                assert(t =~= t0);
            }
            return;
        }
        match self.parser_state {
            ParserStateMachine::ReadElementData(size) => {
                proof {
                    lemma_header_stable(t0, zeros(count as nat));
                }
                let ghost h = header(t)->0;
                self.pending = Ghost(t);
                self.cursor = self.cursor + count;
                let frame = if self.cursor == size {
                    self.finish_element(Ghost(t))
                } else {
                    None
                };
                proof {
                    lemma_step_outcome(t, old(self)@.doc_type, self@, frame);
                }
            },
            _ => {
                proof {
                    let t = self.pending@;
                    if t.len() >= 1 {
                        lemma_vint_len(t[0]);
                        if t.len() > id_len(t) {
                            lemma_vint_len(t[id_len(t)]);
                        }
                    }
                }
            },
        }
    }

    /// Takes the next piece of the stream and hands out the frames that it
    /// completes, in order. Together with what was pending, the piece is
    /// parsed as [`parse`] says; what it leaves unfinished is pending
    /// afterwards.
    pub fn feed(&mut self, chunk: &[u8]) -> (frames: Vec<Vec<u8>>)
        requires
            old(self).wf(),
        ensures
            final(self).wf(),
            parse(old(self)@.pending + chunk@, old(self)@.doc_type) == (Parsed {
                frames: frames_view(frames@),
                doc_type: final(self)@.doc_type,
                rest: final(self)@.pending,
            }),
    {
        let ghost start = self@.pending;
        let ghost doc_type = self@.doc_type;
        let mut frames: Vec<Vec<u8>> = Vec::new();
        let mut i: usize = 0;
        proof {
            self.lemma_pending_unfinished();
            assert(start + chunk@.take(0) =~= start);
            assert(frames_view(frames@) =~= Seq::empty());
        }
        while i < chunk.len()
            invariant
                i <= chunk@.len(),
                self.wf(),
                parse(start + chunk@.take(i as int), doc_type) == (Parsed {
                    frames: frames_view(frames@),
                    doc_type: self@.doc_type,
                    rest: self@.pending,
                }),
            decreases chunk@.len() - i,
        {
            let ghost before = self@;
            let ghost so_far = frames_view(frames@);
            let frame = self.push_byte(chunk[i]);
            proof {
                let byte = chunk@[i as int];
                let one = before.pending.push(byte);
                lemma_parse_in_pieces(start + chunk@.take(i as int), seq![byte], doc_type);
                assert((start + chunk@.take(i as int)) + seq![byte] =~= start + chunk@.take(i + 1));
                assert(before.pending + seq![byte] =~= one);
                lemma_step_outcome(one, before.doc_type, self@, frame);
            }
            if let Some(frame) = frame {
                frames.push(frame);
                assert(frames_view(frames@) =~= so_far + seq![frame@]);
            } else {
                assert(so_far + Seq::<Seq<u8>>::empty() =~= so_far);
            }
            i += 1;
        }
        assert(chunk@.take(i as int) =~= chunk@);
        frames
    }
}

/// The frame that a step handed out, as a sequence of at most one.
spec fn frame_view(frame: Option<Vec<u8>>) -> Seq<Seq<u8>> {
    match frame {
        Some(frame) => seq![frame@],
        None => Seq::empty(),
    }
}

/// What one byte does: `stream` is what was pending together with the byte.
/// Either the byte completes the pending element, whose frame is handed
/// out, or it becomes part of what is pending.
spec fn step_outcome(
    stream: Seq<u8>,
    doc_type: Option<Seq<u8>>,
    after: WebmView,
    frame: Option<Vec<u8>>,
) -> bool {
    match element_len(stream) {
        Some(n) => {
            &&& n == stream.len()
            &&& after.pending.len() == 0
            &&& after.doc_type == doc_type_after(stream, doc_type)
            &&& frame_view(frame) == frames_in(stream)
        },
        None => {
            &&& after.pending == stream
            &&& after.doc_type == doc_type
            &&& frame is None
        },
    }
}

/// A step that completes an element, or none, parses what was pending and
/// the byte.
proof fn lemma_step_outcome(
    stream: Seq<u8>,
    doc_type: Option<Seq<u8>>,
    after: WebmView,
    frame: Option<Vec<u8>>,
)
    requires
        step_outcome(stream, doc_type, after, frame),
    ensures
        parse(stream, doc_type) == (Parsed {
            frames: frame_view(frame),
            doc_type: after.doc_type,
            rest: after.pending,
        }),
{
    lemma_element_len_bounds(stream);
    match element_len(stream) {
        Some(n) => {
            assert(stream.take(n) =~= stream);
            assert(stream.skip(n) =~= Seq::<u8>::empty());
            let then = doc_type_after(stream, doc_type);
            assert(element_len(Seq::<u8>::empty()) is None);
            assert(parse(stream.skip(n), then) == (Parsed {
                frames: Seq::empty(),
                doc_type: then,
                rest: Seq::empty(),
            }));
            assert(frames_in(stream) + Seq::<Seq<u8>>::empty() =~= frames_in(stream));
            assert(after.pending =~= Seq::<u8>::empty());
        },
        None => {},
    }
}

} // verus!
