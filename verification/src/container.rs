//! The container of a track: which of the two it is, and its frames.

use crate::opus_parse::{packets_view, parse_ogg, OggParsed, OggStream, OggView};
use crate::webm_parse::{frames_view, parse, Parsed, WebmStream, WebmView};
use vstd::prelude::*;

verus! {

/// A container that holds Opus frames.
#[derive(Debug, Clone, Copy, PartialEq, Eq, Structural)]
pub enum Container {
    WebM,
    Ogg,
}

/// The four bytes that start an EBML document, and with it a WebM file.
pub open spec fn ebml_magic() -> Seq<u8> {
    seq![0x1au8, 0x45u8, 0xdfu8, 0xa3u8]
}

/// The four bytes that start an Ogg page: `OggS`.
pub open spec fn ogg_magic() -> Seq<u8> {
    seq![0x4fu8, 0x67u8, 0x67u8, 0x53u8]
}

/// The container that `head`, the start of a file, belongs to, as far as
/// its first four bytes tell.
pub open spec fn sniffed(head: Seq<u8>) -> Option<Container> {
    if head.len() >= 4 && head.subrange(0, 4) == ebml_magic() {
        Some(Container::WebM)
    } else if head.len() >= 4 && head.subrange(0, 4) == ogg_magic() {
        Some(Container::Ogg)
    } else {
        None
    }
}

/// Tells the container of a file from its start.
pub fn sniff(head: &[u8]) -> (container: Option<Container>)
    ensures
        container == sniffed(head@),
{
    if head.len() < 4 {
        return None;
    }
    let ghost start = head@.subrange(0, 4);
    if head[0] == 0x1a && head[1] == 0x45 && head[2] == 0xdf && head[3] == 0xa3 {
        assert(start =~= ebml_magic());
        Some(Container::WebM)
    } else if head[0] == 0x4f && head[1] == 0x67 && head[2] == 0x67 && head[3] == 0x53 {
        assert(start =~= ogg_magic());
        assert(start[0] != ebml_magic()[0]);
        Some(Container::Ogg)
    } else {
        assert(start != ebml_magic()) by {
            if start == ebml_magic() {
                assert(start[0] == 0x1a && start[1] == 0x45 && start[2] == 0xdf && start[3]
                    == 0xa3);
            }
        }
        assert(start != ogg_magic()) by {
            if start == ogg_magic() {
                assert(start[0] == 0x4f && start[1] == 0x67 && start[2] == 0x67 && start[3]
                    == 0x53);
            }
        }
        None
    }
}

/// A parser for either container.
pub enum ContainerReader {
    WebM(WebmStream),
    Ogg(OggStream),
}

impl ContainerReader {
    /// Whether the parser inside is in order.
    pub open spec fn wf(&self) -> bool {
        match self {
            ContainerReader::WebM(stream) => stream.wf(),
            ContainerReader::Ogg(stream) => stream.wf(),
        }
    }

    /// Which container is read.
    pub open spec fn container(&self) -> Container {
        match self {
            ContainerReader::WebM(_) => Container::WebM,
            ContainerReader::Ogg(_) => Container::Ogg,
        }
    }

    /// A parser at the start of a file of the given container.
    pub fn new(container: Container) -> (reader: ContainerReader)
        ensures
            reader.wf(),
            reader.container() == container,
            match reader {
                ContainerReader::WebM(stream) => stream@ == (WebmView {
                    pending: Seq::empty(),
                    doc_type: None,
                }),
                ContainerReader::Ogg(stream) => stream@ == (OggView {
                    pending: Seq::empty(),
                    lacing: Seq::empty(),
                    carry: Seq::empty(),
                }),
            },
    {
        match container {
            Container::WebM => ContainerReader::WebM(WebmStream::new()),
            Container::Ogg => ContainerReader::Ogg(OggStream::new()),
        }
    }

    /// Takes the next piece of the file and hands out the frames that it
    /// completes, as the parser of its container does.
    pub fn feed(&mut self, chunk: &[u8]) -> (frames: Vec<Vec<u8>>)
        requires
            old(self).wf(),
        ensures
            final(self).wf(),
            match (*old(self), *final(self)) {
                (ContainerReader::WebM(before), ContainerReader::WebM(after)) => parse(
                    before@.pending + chunk@,
                    before@.doc_type,
                ) == (Parsed {
                    frames: frames_view(frames@),
                    doc_type: after@.doc_type,
                    rest: after@.pending,
                }),
                (ContainerReader::Ogg(before), ContainerReader::Ogg(after)) => parse_ogg(
                    before@.pending + chunk@,
                    before@.lacing,
                    before@.carry,
                ) == (OggParsed {
                    packets: packets_view(frames@),
                    lacing: after@.lacing,
                    carry: after@.carry,
                    rest: after@.pending,
                }),
                _ => false,
            },
    {
        match self {
            ContainerReader::WebM(stream) => stream.feed(chunk),
            ContainerReader::Ogg(stream) => stream.feed(chunk),
        }
    }
}

} // verus!
