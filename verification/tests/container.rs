use jukebox::container::{sniff, Container, ContainerReader};

#[test]
fn webm_is_told_by_the_ebml_magic() {
    assert_eq!(sniff(&[0x1a, 0x45, 0xdf, 0xa3, 0x9f, 0x42]), Some(Container::WebM));
    assert_eq!(sniff(&[0x1a, 0x45, 0xdf, 0xa3]), Some(Container::WebM));
}

#[test]
fn ogg_is_told_by_its_capture_pattern() {
    assert_eq!(sniff(b"OggS\0\x02"), Some(Container::Ogg));
    assert_eq!(sniff(b"OggS"), Some(Container::Ogg));
}

#[test]
fn other_starts_tell_nothing() {
    assert_eq!(sniff(&[]), None);
    assert_eq!(sniff(&[0x1a, 0x45, 0xdf]), None);
    assert_eq!(sniff(b"Ogg"), None);
    assert_eq!(sniff(b"oggS...."), None);
    assert_eq!(sniff(&[0x1a, 0x45, 0xdf, 0xa4, 0, 0]), None);
    assert_eq!(sniff(b"RIFF\x24\x08\x00\x00WAVE"), None);
}

#[test]
fn reader_parses_the_container_it_was_made_for() {
    let block = [0xa3, 0x87, 0x81, 0x00, 0x00, 0x00, 7, 8, 9];
    let mut webm = ContainerReader::new(Container::WebM);
    assert!(matches!(webm, ContainerReader::WebM(_)));
    assert_eq!(webm.feed(&block), vec![vec![7, 8, 9]]);

    let mut page = b"OggS".to_vec();
    page.extend_from_slice(&[0; 22]);
    page.extend_from_slice(&[2, 3, 1]);
    page.extend_from_slice(&[1, 2, 3, 4]);
    let mut ogg = ContainerReader::new(Container::Ogg);
    assert!(matches!(ogg, ContainerReader::Ogg(_)));
    assert_eq!(ogg.feed(&page[..10]), Vec::<Vec<u8>>::new());
    assert_eq!(ogg.feed(&page[10..]), vec![vec![1, 2, 3], vec![4]]);
}
