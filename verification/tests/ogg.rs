use jukebox::opus_parse::{OggPageHeader, OggStream};

fn page_header(pagenum: u32, segnum: u8) -> [u8; 27] {
    let mut header = [0u8; 27];
    header[..4].copy_from_slice(b"OggS");
    header[5] = 0x02;
    header[6..14].copy_from_slice(&0x0102_0304_0506_0708u64.to_le_bytes());
    header[14..18].copy_from_slice(&0xdead_beefu32.to_le_bytes());
    header[18..22].copy_from_slice(&pagenum.to_le_bytes());
    header[22..26].copy_from_slice(&0x1234_5678u32.to_le_bytes());
    header[26] = segnum;
    header
}

fn page(pagenum: u32, lacing: &[u8], data: &[u8]) -> Vec<u8> {
    let total: usize = lacing.iter().map(|&len| len as usize).sum();
    assert_eq!(total, data.len());
    let mut bytes = page_header(pagenum, lacing.len() as u8).to_vec();
    bytes.extend_from_slice(lacing);
    bytes.extend_from_slice(data);
    bytes
}

fn run(seed: u8, len: usize) -> Vec<u8> {
    (0..len).map(|i| seed.wrapping_add(i as u8).wrapping_mul(13)).collect()
}

/// Three pages: small packets, a packet of several segments, an empty
/// packet, a packet of exactly 255 bytes, and one that goes on in the next
/// page.
fn sample() -> (Vec<u8>, Vec<Vec<u8>>) {
    let packets = vec![
        run(1, 3),
        run(2, 255 + 255 + 10),
        Vec::new(),
        run(3, 255),
        run(4, 255 + 7),
        run(5, 1),
    ];
    let mut first = Vec::new();
    first.extend_from_slice(&packets[0]);
    first.extend_from_slice(&packets[1]);
    first.extend_from_slice(&packets[3]);
    first.extend_from_slice(&packets[4][..255]);
    let mut bytes = page(0, &[3, 255, 255, 10, 0, 255, 0, 255], &first);
    bytes.extend(page(1, &[], &[]));
    let mut last = Vec::new();
    last.extend_from_slice(&packets[4][255..]);
    last.extend_from_slice(&packets[5]);
    bytes.extend(page(2, &[7, 1], &last));
    (bytes, packets)
}

fn feed_in_pieces(bytes: &[u8], piece: usize) -> Vec<Vec<u8>> {
    let mut stream = OggStream::new();
    let mut packets = Vec::new();
    for chunk in bytes.chunks(piece) {
        packets.extend(stream.feed(chunk));
    }
    packets
}

#[test]
fn page_header_is_read_least_significant_byte_first() {
    let header = OggPageHeader::unpack(&page_header(0x0a0b_0c0d, 17));
    assert_eq!(
        header,
        OggPageHeader {
            capture_pattern: *b"OggS",
            pad_byte: 0,
            flag: 0x02,
            gran_pos: 0x0102_0304_0506_0708,
            serial: 0xdead_beef,
            pagenum: 0x0a0b_0c0d,
            crc: 0x1234_5678,
            segnum: 17,
        }
    );
    assert!(header.is_captured());
}

#[test]
fn page_header_with_large_numbers() {
    let mut bytes = [0xffu8; 27];
    bytes[0] = b'o';
    let header = OggPageHeader::unpack(&bytes);
    assert_eq!(header.gran_pos, u64::MAX);
    assert_eq!(header.serial, u32::MAX);
    assert_eq!(header.pagenum, u32::MAX);
    assert_eq!(header.crc, u32::MAX);
    assert_eq!(header.segnum, 255);
    assert!(!header.is_captured());
}

#[test]
fn whole_stream_yields_its_packets_in_order() {
    let (bytes, packets) = sample();
    let mut stream = OggStream::new();
    assert_eq!(stream.feed(&bytes), packets);
    assert_eq!(stream.feed(&[]), Vec::<Vec<u8>>::new());
}

#[test]
fn ogg_one_byte_at_a_time_yields_the_same_packets() {
    let (bytes, packets) = sample();
    assert_eq!(feed_in_pieces(&bytes, 1), packets);
}

#[test]
fn ogg_any_piece_size_yields_the_same_packets() {
    let (bytes, packets) = sample();
    for piece in [2, 3, 26, 27, 28, 254, 255, 256, 4096] {
        assert_eq!(feed_in_pieces(&bytes, piece), packets, "pieces of {}", piece);
    }
}

#[test]
fn a_packet_comes_out_with_its_last_byte() {
    let bytes = page(0, &[2, 1], &[10, 11, 12]);
    let mut stream = OggStream::new();
    assert_eq!(stream.feed(&bytes[..bytes.len() - 2]), Vec::<Vec<u8>>::new());
    assert_eq!(stream.feed(&bytes[bytes.len() - 2..bytes.len() - 1]), vec![vec![10, 11]]);
    assert_eq!(stream.feed(&bytes[bytes.len() - 1..]), vec![vec![12]]);
}

#[test]
fn segments_of_no_length_end_packets_at_once() {
    let bytes = page(0, &[0, 0, 255, 0], &run(9, 255));
    let mut stream = OggStream::new();
    assert_eq!(stream.feed(&bytes[..bytes.len() - 255]), vec![Vec::<u8>::new(), Vec::<u8>::new()]);
    assert_eq!(stream.feed(&bytes[bytes.len() - 255..]), vec![run(9, 255)]);
}

#[test]
fn a_packet_may_span_pages() {
    let whole = run(7, 255 + 255 + 2);
    let mut bytes = page(0, &[255], &whole[..255]);
    bytes.extend(page(1, &[255], &whole[255..510]));
    bytes.extend(page(2, &[2], &whole[510..]));
    assert_eq!(feed_in_pieces(&bytes, 5), vec![whole]);
}

#[test]
fn a_stream_that_ends_inside_a_packet_just_ends() {
    let (bytes, packets) = sample();
    let mut stream = OggStream::new();
    let cut = bytes.len() - 1;
    assert_eq!(stream.feed(&bytes[..cut]), packets[..5].to_vec());
    assert_eq!(stream.feed(&bytes[cut..]), packets[5..].to_vec());
}
