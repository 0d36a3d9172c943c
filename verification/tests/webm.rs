use jukebox::webm_parse::{is_webm, EbmlElementId, WebmStream};

fn element(id: &[u8], size: &[u8], data: &[u8]) -> Vec<u8> {
    let mut bytes = Vec::new();
    bytes.extend_from_slice(id);
    bytes.extend_from_slice(size);
    bytes.extend_from_slice(data);
    bytes
}

fn simple_block(frame: &[u8]) -> Vec<u8> {
    let mut data = vec![0x81, 0x00, 0x00, 0x00];
    data.extend_from_slice(frame);
    assert!(data.len() < 127);
    element(&[0xa3], &[0x80 | data.len() as u8], &data)
}

fn frame(seed: u8, len: usize) -> Vec<u8> {
    (0..len).map(|i| seed.wrapping_add(i as u8).wrapping_mul(31)).collect()
}

/// A small but complete file: header with document type, segment, some
/// elements to pass over, and two clusters with three blocks.
fn sample() -> (Vec<u8>, Vec<Vec<u8>>) {
    let frames = vec![frame(1, 20), frame(2, 1), frame(3, 90)];
    let mut bytes = Vec::new();
    bytes.extend(element(&[0x1a, 0x45, 0xdf, 0xa3], &[0x8b], &[]));
    bytes.extend(element(&[0x42, 0x86], &[0x81], &[0x01]));
    bytes.extend(element(&[0x42, 0x82], &[0x84], b"webm"));
    bytes.extend(element(&[0x18, 0x53, 0x80, 0x67], &[0x01, 0xff, 0xff, 0xff, 0xff, 0xff, 0xff, 0xff], &[]));
    bytes.extend(element(&[0x11, 0x4d, 0x9b, 0x74], &[0x40, 0x05], &[1, 2, 3, 4, 5]));
    bytes.extend(element(&[0xec], &[0x83], &[0xa3, 0x84, 0x00]));
    bytes.extend(element(&[0x16, 0x54, 0xae, 0x6b], &[0x20, 0x00, 0x02], &[0xa3, 0xa3]));
    bytes.extend(element(&[0x1f, 0x43, 0xb6, 0x75], &[0xff], &[]));
    bytes.extend(element(&[0xe7], &[0x81], &[0x00]));
    bytes.extend(simple_block(&frames[0]));
    bytes.extend(simple_block(&frames[1]));
    bytes.extend(element(&[0x1f, 0x43, 0xb6, 0x75], &[0x20, 0x00, 0x40], &[]));
    bytes.extend(element(&[0xe7], &[0x82], &[0x03, 0xe8]));
    bytes.extend(simple_block(&frames[2]));
    (bytes, frames)
}

fn feed_in_pieces(bytes: &[u8], piece: usize) -> (Vec<Vec<u8>>, WebmStream) {
    let mut stream = WebmStream::new();
    let mut frames = Vec::new();
    for chunk in bytes.chunks(piece) {
        frames.extend(stream.feed(chunk));
    }
    (frames, stream)
}

#[test]
fn webm_frame_extraction() {
    let payload: Vec<u8> = (100..120).collect();
    let mut data = vec![0x81, 0x00, 0x00, 0x00];
    data.extend_from_slice(&payload);
    assert_eq!(data.len(), 24);
    let mut bytes = element(&[0x1f, 0x43, 0xb6, 0x75], &[0x9b], &[]);
    bytes.extend(element(&[0xa3], &[0x98], &data));

    let mut stream = WebmStream::new();
    let frames = stream.feed(&bytes);
    assert_eq!(frames.len(), 1);
    assert_eq!(frames[0].len(), 20);
    assert_eq!(frames[0], payload);
}

#[test]
fn whole_file_yields_its_frames_in_order() {
    let (bytes, frames) = sample();
    let mut stream = WebmStream::new();
    assert_eq!(stream.feed(&bytes), frames);
    assert_eq!(stream.feed(&[]), Vec::<Vec<u8>>::new());
}

#[test]
fn one_byte_at_a_time_yields_the_same_frames() {
    let (bytes, frames) = sample();
    let (piecewise, _) = feed_in_pieces(&bytes, 1);
    assert_eq!(piecewise, frames);
}

#[test]
fn any_piece_size_yields_the_same_frames() {
    let (bytes, frames) = sample();
    for piece in [2, 3, 5, 7, 16, 64, 1000] {
        let (piecewise, _) = feed_in_pieces(&bytes, piece);
        assert_eq!(piecewise, frames, "pieces of {}", piece);
    }
}

#[test]
fn frames_come_out_as_soon_as_they_are_complete() {
    let (bytes, frames) = sample();
    let mut stream = WebmStream::new();
    let mut seen = 0;
    for (i, byte) in bytes.iter().enumerate() {
        let out = stream.feed(&[*byte]);
        if i + 1 == bytes.len() {
            assert_eq!(out, vec![frames[2].clone()]);
        }
        seen += out.len();
    }
    assert_eq!(seen, 3);
}

#[test]
fn a_file_that_ends_inside_an_element_just_ends() {
    let (bytes, frames) = sample();
    let cut = bytes.len() - 10;
    let (piecewise, mut stream) = feed_in_pieces(&bytes[..cut], 4);
    assert_eq!(piecewise, frames[..2].to_vec());
    assert_eq!(stream.feed(&bytes[cut..]), frames[2..].to_vec());
}

#[test]
fn document_type_is_noted() {
    let (bytes, _) = sample();
    let mut stream = WebmStream::new();
    assert_eq!(stream.doc_type(), None);
    stream.feed(&bytes[..12]);
    assert_eq!(stream.doc_type(), None);
    stream.feed(&bytes[12..]);
    assert_eq!(stream.doc_type(), Some(&b"webm".to_vec()));
    assert!(is_webm(stream.doc_type().unwrap()));
}

#[test]
fn another_document_type_is_noted_and_parsing_goes_on() {
    let mut bytes = element(&[0x1a, 0x45, 0xdf, 0xa3], &[0x80], &[]);
    bytes.extend(element(&[0x42, 0x82], &[0x88], b"matroska"));
    bytes.extend(simple_block(&[9, 9, 9]));
    let mut stream = WebmStream::new();
    assert_eq!(stream.feed(&bytes), vec![vec![9, 9, 9]]);
    assert_eq!(stream.doc_type(), Some(&b"matroska".to_vec()));
    assert!(!is_webm(stream.doc_type().unwrap()));
    assert!(!is_webm(b"web"));
    assert!(!is_webm(b"webms"));
    assert!(!is_webm(b""));
}

#[test]
fn a_block_of_exactly_the_prefix_holds_an_empty_frame() {
    let mut stream = WebmStream::new();
    assert_eq!(stream.feed(&simple_block(&[])), vec![Vec::<u8>::new()]);
}

#[test]
fn a_block_shorter_than_its_prefix_holds_no_frame() {
    let mut bytes = Vec::new();
    bytes.extend(element(&[0xa3], &[0x83], &[0x81, 0x00, 0x00]));
    bytes.extend(element(&[0xa3], &[0x80], &[]));
    bytes.extend(simple_block(&[5]));
    let mut stream = WebmStream::new();
    assert_eq!(stream.feed(&bytes), vec![vec![5]]);
}

#[test]
fn blocks_inside_skipped_elements_are_not_frames() {
    let inner = simple_block(&[1, 2, 3]);
    let mut bytes = element(&[0xa0], &[0x80 | inner.len() as u8], &inner);
    bytes.extend(element(&[0xec], &[0x80 | inner.len() as u8], &inner));
    bytes.extend(simple_block(&[4, 5, 6]));
    let mut stream = WebmStream::new();
    assert_eq!(stream.feed(&bytes), vec![vec![4, 5, 6]]);
}

#[test]
fn sizes_of_several_bytes_are_read() {
    let payload = frame(5, 300);
    let mut data = vec![0x81, 0x00, 0x00, 0x00];
    data.extend_from_slice(&payload);
    let two = element(&[0xa3], &[0x41, 0x30], &data);
    let three = element(&[0xa3], &[0x20, 0x01, 0x30], &data);
    let eight = element(&[0xa3], &[0x01, 0, 0, 0, 0, 0, 0x01, 0x30], &data);
    let nine = element(&[0xa3], &[0x00, 0, 0, 0, 0, 0, 0, 0x01, 0x30], &data);
    for bytes in [two, three, eight, nine] {
        let (frames, _) = feed_in_pieces(&bytes, 3);
        assert_eq!(frames, vec![payload.clone()]);
    }
}

#[test]
fn element_ids_are_told_apart() {
    let table = [
        (0x1a45dfa3, EbmlElementId::Header),
        (0x4282, EbmlElementId::DocType),
        (0x18538067, EbmlElementId::Segment),
        (0x114d9b74, EbmlElementId::SeekHead),
        (0x1549a966, EbmlElementId::Info),
        (0x2ad7b1, EbmlElementId::TimecodeScale),
        (0x1654ae6b, EbmlElementId::Tracks),
        (0xae, EbmlElementId::TrackEntry),
        (0x86, EbmlElementId::CodecID),
        (0x1f43b675, EbmlElementId::Cluster),
        (0xe7, EbmlElementId::Timecode),
        (0xa3, EbmlElementId::SimpleBlock),
        (0xa0, EbmlElementId::BlockGroup),
        (0xa1, EbmlElementId::Block),
        (0x1c53bb6b, EbmlElementId::Cues),
        (0xe1, EbmlElementId::Audio),
        (0x9f, EbmlElementId::AudioChannels),
        (0xec, EbmlElementId::Void),
        (0x4286, EbmlElementId::Unknown(0x4286)),
        (0, EbmlElementId::Unknown(0)),
    ];
    for (id, element) in table {
        assert_eq!(EbmlElementId::from_id(id), element);
        let entered = matches!(
            element,
            EbmlElementId::Header | EbmlElementId::Segment | EbmlElementId::Cluster
        );
        assert_eq!(element.enters(), entered);
        let read = matches!(element, EbmlElementId::DocType | EbmlElementId::SimpleBlock);
        assert_eq!(element.reads(), read);
    }
}

#[test]
fn data_to_pass_over_can_be_skipped_instead_of_fed() {
    let filler = frame(8, 1000);
    let void = element(&[0xec], &[0x43, 0xe8], &filler);
    let block = simple_block(&[1, 2, 3, 4, 5]);

    let mut fed = WebmStream::new();
    assert_eq!(fed.skippable(), 0);
    assert_eq!(fed.feed(&void[..1]), Vec::<Vec<u8>>::new());
    assert_eq!(fed.skippable(), 0);
    assert_eq!(fed.feed(&void[1..3]), Vec::<Vec<u8>>::new());
    assert_eq!(fed.skippable(), 1000);
    assert_eq!(fed.feed(&void[3..103]), Vec::<Vec<u8>>::new());
    assert_eq!(fed.skippable(), 900);
    assert_eq!(fed.feed(&void[103..]), Vec::<Vec<u8>>::new());
    assert_eq!(fed.skippable(), 0);
    assert_eq!(fed.feed(&block), vec![vec![1, 2, 3, 4, 5]]);

    let mut skipped = WebmStream::new();
    skipped.feed(&void[..3]);
    skipped.skip(400);
    assert_eq!(skipped.skippable(), 600);
    skipped.skip(0);
    assert_eq!(skipped.skippable(), 600);
    skipped.skip(600);
    assert_eq!(skipped.skippable(), 0);
    assert_eq!(skipped.feed(&block), vec![vec![1, 2, 3, 4, 5]]);
}

#[test]
fn data_that_is_looked_at_cannot_be_skipped() {
    let block = simple_block(&frame(1, 50));
    let mut stream = WebmStream::new();
    stream.feed(&block[..2]);
    assert_eq!(stream.skippable(), 0);
    stream.feed(&block[2..10]);
    assert_eq!(stream.skippable(), 0);
    let mut doc = WebmStream::new();
    doc.feed(&[0x42, 0x82, 0x84, b'w']);
    assert_eq!(doc.skippable(), 0);
    let mut cluster = WebmStream::new();
    cluster.feed(&[0x1f, 0x43, 0xb6, 0x75, 0xa0]);
    assert_eq!(cluster.skippable(), 0);
}
