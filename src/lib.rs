//! Decoding of ISO base media ("MP4" / QuickTime) box trees from a byte buffer.
//!
//! Every decoder states, over the bytes it reads, exactly which record or error it yields.

pub mod common;
pub mod container;
pub mod error;
pub mod fourcc;
pub mod header;
pub mod leaf;
pub mod mp4;
pub mod parser;
pub mod refs;
pub mod tables;
pub mod tree;

pub use common::Matrix;
pub use container::ListBoxIterator;
pub use error::{Error, ErrorView};
pub use fourcc::FourCC;
pub use header::{BoxHeader, BoxType, HEADER_LENGTH};
pub use leaf::{
    language_string, FtypBox, HandlerBox, MediaDataBox, MediaHeaderBox, MvhdBox, SkipBox,
    SoundInfoBox, TrackHeaderBox, UrlBox, VideoInfoBox, WideBox,
};
pub use mp4::Mp4;
pub use parser::{parse, BoxParser, BoxReader};
pub use refs::{
    DataInfoBox, DataReferenceBox, EditBox, Reference, VideoCodec, VideoSampleDescriptionBox,
};
pub use tables::{
    ChunkOffset64Box, ChunkOffsetBox, CompositionOffsetBox, EditEntry, EditListBox, SampleSizeBox,
    SampleToChunkBox, SyncSampleBox, TimeToSampleBox,
};
pub use tree::{
    BoxContent, BoxElement, ListBox, MediaBox, MediaInfoBox, MoovBox, SampleTableBox, TrackBox,
    UserDataBox,
};
