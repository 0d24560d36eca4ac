use vstd::prelude::*;
use vstd::string::StringSliceAdditionalSpecFns;

use crate::error::{eof, rv, Error, ErrorView};
use crate::fourcc::FourCC;
use crate::parser::{be32, be64, BoxReader};

verus! {

/// Length of the short box preamble: a 32-bit size and a four-character code.
pub const HEADER_LENGTH: u64 = 8;

/// The kind of a box, one variant per registered four-character code.
#[derive(Clone, Copy, PartialEq, Eq, Structural, Debug)]
pub enum BoxType {
    /// `ftyp`
    FileType,
    /// `moov`
    Movie,
    /// `mvhd`
    MovieHeader,
    /// `trak`
    Track,
    /// `mdat`
    MediaData,
    /// `udta`
    UserData,
    /// `wide`
    Wide,
    /// `tkhd`
    TrackHeader,
    /// `edts`
    Edit,
    /// `elst`
    EditList,
    /// `mdia`
    Media,
    /// `mdhd`
    MediaHeader,
    /// `hdlr`
    Handler,
    /// `minf`
    MediaInfo,
    /// `vmhd`
    VideoInfo,
    /// `smhd`
    SoundInfo,
    /// `dinf`
    DataInfo,
    /// `dref`
    DataRef,
    /// `url `
    UrlRef,
    /// `stbl`
    SampleTable,
    /// `stsd`
    VideoSampleDescription,
    /// `stts`
    TimeToSample,
    /// `stsc`
    SampleToChunk,
    /// `stsz`
    SampleSize,
    /// `stss`
    SyncSample,
    /// `stco`
    ChunkOffset,
    /// `co64`
    ChunkOffset64,
    /// `ctts`
    CompositionOffset,
    /// The pseudo-box that stands for a whole stream.
    Root(u32),
    /// A code that the registry does not hold.
    Unknown(u32),
}

/// The kind that a four-character code names.
#[verifier::opaque]
pub open spec fn kind_of(code: u32) -> BoxType {
    match code {
        0x66747970 => BoxType::FileType,
        0x6d6f6f76 => BoxType::Movie,
        0x6d766864 => BoxType::MovieHeader,
        0x7472616b => BoxType::Track,
        0x6d646174 => BoxType::MediaData,
        0x75647461 => BoxType::UserData,
        0x77696465 => BoxType::Wide,
        0x746b6864 => BoxType::TrackHeader,
        0x65647473 => BoxType::Edit,
        0x656c7374 => BoxType::EditList,
        0x6d646961 => BoxType::Media,
        0x6d646864 => BoxType::MediaHeader,
        0x68646c72 => BoxType::Handler,
        0x6d696e66 => BoxType::MediaInfo,
        0x766d6864 => BoxType::VideoInfo,
        0x736d6864 => BoxType::SoundInfo,
        0x64696e66 => BoxType::DataInfo,
        0x64726566 => BoxType::DataRef,
        0x75726c20 => BoxType::UrlRef,
        0x7374626c => BoxType::SampleTable,
        0x73747364 => BoxType::VideoSampleDescription,
        0x73747473 => BoxType::TimeToSample,
        0x73747363 => BoxType::SampleToChunk,
        0x7374737a => BoxType::SampleSize,
        0x73747373 => BoxType::SyncSample,
        0x7374636f => BoxType::ChunkOffset,
        0x636f3634 => BoxType::ChunkOffset64,
        0x63747473 => BoxType::CompositionOffset,
        _ => BoxType::Unknown(code),
    }
}

/// The four-character code of a kind.
pub open spec fn code_of(t: BoxType) -> u32 {
    match t {
        BoxType::FileType => 0x66747970,
        BoxType::Movie => 0x6d6f6f76,
        BoxType::MovieHeader => 0x6d766864,
        BoxType::Track => 0x7472616b,
        BoxType::MediaData => 0x6d646174,
        BoxType::UserData => 0x75647461,
        BoxType::Wide => 0x77696465,
        BoxType::TrackHeader => 0x746b6864,
        BoxType::Edit => 0x65647473,
        BoxType::EditList => 0x656c7374,
        BoxType::Media => 0x6d646961,
        BoxType::MediaHeader => 0x6d646864,
        BoxType::Handler => 0x68646c72,
        BoxType::MediaInfo => 0x6d696e66,
        BoxType::VideoInfo => 0x766d6864,
        BoxType::SoundInfo => 0x736d6864,
        BoxType::DataInfo => 0x64696e66,
        BoxType::DataRef => 0x64726566,
        BoxType::UrlRef => 0x75726c20,
        BoxType::SampleTable => 0x7374626c,
        BoxType::VideoSampleDescription => 0x73747364,
        BoxType::TimeToSample => 0x73747473,
        BoxType::SampleToChunk => 0x73747363,
        BoxType::SampleSize => 0x7374737a,
        BoxType::SyncSample => 0x73747373,
        BoxType::ChunkOffset => 0x7374636f,
        BoxType::ChunkOffset64 => 0x636f3634,
        BoxType::CompositionOffset => 0x63747473,
        BoxType::Root(c) => c,
        BoxType::Unknown(c) => c,
    }
}

/// Whether `t` is one of the registered kinds.
pub open spec fn registered(t: BoxType) -> bool {
    !(t is Root) && !(t is Unknown)
}

/// The registry is a bijection: decoding a code and encoding the kind gives the code back,
/// and each registered kind is what its own code decodes to.
pub proof fn lemma_registry_bijective(code: u32, t: BoxType)
    ensures
        code_of(kind_of(code)) == code,
        registered(t) ==> kind_of(code_of(t)) == t,
        kind_of(code) is Unknown <==> !registered(kind_of(code)),
{
    reveal(kind_of);
}

impl BoxType {
    /// Looks a code up in the registry; unregistered codes become `Unknown`.
    pub fn from_code(code: u32) -> (r: BoxType)
        ensures
            r == kind_of(code),
    {
        reveal(kind_of);
        match code {
            0x66747970 => BoxType::FileType,
            0x6d6f6f76 => BoxType::Movie,
            0x6d766864 => BoxType::MovieHeader,
            0x7472616b => BoxType::Track,
            0x6d646174 => BoxType::MediaData,
            0x75647461 => BoxType::UserData,
            0x77696465 => BoxType::Wide,
            0x746b6864 => BoxType::TrackHeader,
            0x65647473 => BoxType::Edit,
            0x656c7374 => BoxType::EditList,
            0x6d646961 => BoxType::Media,
            0x6d646864 => BoxType::MediaHeader,
            0x68646c72 => BoxType::Handler,
            0x6d696e66 => BoxType::MediaInfo,
            0x766d6864 => BoxType::VideoInfo,
            0x736d6864 => BoxType::SoundInfo,
            0x64696e66 => BoxType::DataInfo,
            0x64726566 => BoxType::DataRef,
            0x75726c20 => BoxType::UrlRef,
            0x7374626c => BoxType::SampleTable,
            0x73747364 => BoxType::VideoSampleDescription,
            0x73747473 => BoxType::TimeToSample,
            0x73747363 => BoxType::SampleToChunk,
            0x7374737a => BoxType::SampleSize,
            0x73747373 => BoxType::SyncSample,
            0x7374636f => BoxType::ChunkOffset,
            0x636f3634 => BoxType::ChunkOffset64,
            0x63747473 => BoxType::CompositionOffset,
            _ => BoxType::Unknown(code),
        }
    }

    /// The four-character code of this kind.
    pub fn code(&self) -> (r: u32)
        ensures
            r == code_of(*self),
    {
        match *self {
            BoxType::FileType => 0x66747970,
            BoxType::Movie => 0x6d6f6f76,
            BoxType::MovieHeader => 0x6d766864,
            BoxType::Track => 0x7472616b,
            BoxType::MediaData => 0x6d646174,
            BoxType::UserData => 0x75647461,
            BoxType::Wide => 0x77696465,
            BoxType::TrackHeader => 0x746b6864,
            BoxType::Edit => 0x65647473,
            BoxType::EditList => 0x656c7374,
            BoxType::Media => 0x6d646961,
            BoxType::MediaHeader => 0x6d646864,
            BoxType::Handler => 0x68646c72,
            BoxType::MediaInfo => 0x6d696e66,
            BoxType::VideoInfo => 0x766d6864,
            BoxType::SoundInfo => 0x736d6864,
            BoxType::DataInfo => 0x64696e66,
            BoxType::DataRef => 0x64726566,
            BoxType::UrlRef => 0x75726c20,
            BoxType::SampleTable => 0x7374626c,
            BoxType::VideoSampleDescription => 0x73747364,
            BoxType::TimeToSample => 0x73747473,
            BoxType::SampleToChunk => 0x73747363,
            BoxType::SampleSize => 0x7374737a,
            BoxType::SyncSample => 0x73747373,
            BoxType::ChunkOffset => 0x7374636f,
            BoxType::ChunkOffset64 => 0x636f3634,
            BoxType::CompositionOffset => 0x63747473,
            BoxType::Root(c) => c,
            BoxType::Unknown(c) => c,
        }
    }

    /// The four bytes of this kind's code.
    pub fn fourcc(&self) -> (r: FourCC)
        ensures
            be32(r.value@, 0) == code_of(*self),
    {
        FourCC::from_u32(self.code())
    }
}

/// One box's preamble: its kind, the offset where it starts, its declared total size
/// (0: it extends to the end of the enclosing region) and the length of the preamble
/// itself (8, or 16 with the 64-bit size form).
#[derive(Clone, Copy, PartialEq, Eq, Structural, Debug)]
pub struct BoxHeader {
    pub name: BoxType,
    pub start: u64,
    pub size: u64,
    pub header_len: u64,
}

impl View for BoxHeader {
    type V = BoxHeader;

    open spec fn view(&self) -> BoxHeader {
        *self
    }
}

impl BoxHeader {
    /// The invariant of every decoded header.
    pub open spec fn wf(&self) -> bool {
        &&& self.header_len == 8 || self.header_len == 16
        &&& self.size == 0 || self.size >= self.header_len
        &&& self.start + self.size <= u64::MAX
    }

    /// Offset of the first content byte.
    pub open spec fn content_start(&self) -> int {
        self.start + self.header_len
    }
}

/// The cursor stands at the first content byte of the well-formed box `h`.
pub open spec fn at_content(r: &BoxReader, h: BoxHeader) -> bool {
    h.wf() && r.pos == h.content_start()
}

/// Where the box `h` ends inside a region of bytes `d`.
pub open spec fn box_end(d: Seq<u8>, h: BoxHeader) -> int {
    if h.size == 0 {
        d.len() as int
    } else {
        h.start + h.size
    }
}

/// The bytes that the box `h` may read: the region `d` cut at the box's end.
pub open spec fn region(d: Seq<u8>, h: BoxHeader) -> Seq<u8> {
    if box_end(d, h) < d.len() {
        d.subrange(0, box_end(d, h))
    } else {
        d
    }
}

pub open spec fn bad_size<T>() -> Result<T, ErrorView> {
    Err(ErrorView::InvalidData("Invalid Box size"@))
}

/// The header stored at `d[p..]`: a 32-bit size and a code; a size of 1 is replaced by
/// the 64-bit size that follows; a size of 0 means "to the end of the region".
pub open spec fn spec_header(d: Seq<u8>, p: int) -> Result<BoxHeader, ErrorView> {
    if p + 8 > d.len() {
        eof()
    } else {
        let size32 = be32(d, p);
        let name = kind_of(be32(d, p + 4));
        if size32 == 1 {
            if p + 16 > d.len() {
                eof()
            } else {
                let size64 = be64(d, p + 8);
                if 1 <= size64 < 16 || p + size64 > u64::MAX {
                    bad_size()
                } else {
                    Ok(BoxHeader { name, start: p as u64, size: size64, header_len: 16 })
                }
            }
        } else if 2 <= size32 < 8 || p + size32 > u64::MAX {
            bad_size()
        } else {
            Ok(BoxHeader { name, start: p as u64, size: size32 as u64, header_len: 8 })
        }
    }
}

/// A decoded header is well formed, starts where it was read, and its preamble fits.
pub proof fn lemma_header_wf(d: Seq<u8>, p: int)
    requires
        0 <= p <= u64::MAX,
        spec_header(d, p) is Ok,
    ensures
        spec_header(d, p)->Ok_0.wf(),
        spec_header(d, p)->Ok_0.start == p,
        p + spec_header(d, p)->Ok_0.header_len <= d.len(),
{
}

/// A 32-bit size other than 0 and 1 that is at least the preamble's length is the
/// declared size as it stands.
pub proof fn lemma_short_size(d: Seq<u8>, p: int)
    requires
        0 <= p,
        p + 8 <= d.len(),
        p + be32(d, p) <= u64::MAX,
        8 <= be32(d, p),
    ensures
        spec_header(d, p) matches Ok(h) && h.size == be32(d, p) && h.header_len == 8,
{
}

/// With a 32-bit size of 1 the 64-bit size decides: 0 means "to the end", 1 to 15 are
/// rejected as invalid data, and any larger value is the declared size.
pub proof fn lemma_extended_size(d: Seq<u8>, p: int)
    requires
        0 <= p,
        p + 16 <= d.len(),
        be32(d, p) == 1,
        p + be64(d, p + 8) <= u64::MAX,
    ensures
        be64(d, p + 8) == 0 ==> (spec_header(d, p) matches Ok(h) && h.size == 0),
        1 <= be64(d, p + 8) <= 15 ==> spec_header(d, p) == bad_size::<BoxHeader>(),
        be64(d, p + 8) >= 16 ==> (spec_header(d, p) matches Ok(h) && h.size == be64(d, p + 8)
            && h.header_len == 16),
{
}

/// A cursor over the bytes of the box `h` only, at its first content byte.
pub fn sub_reader<'a>(reader: &BoxReader<'a>, h: BoxHeader) -> (r: BoxReader<'a>)
    requires
        h.wf(),
        reader.pos == h.content_start(),
        h.content_start() <= reader.data@.len(),
    ensures
        r.data@ == region(reader.data@, h),
        r.pos == reader.pos,
        at_content(&r, h),
{
    let end = h.end_in(reader);
    let len = reader.data.len() as u64;
    let cut = if end < len {
        end
    } else {
        len
    };
    let sub = BoxReader::at(&reader.data[0..cut as usize], reader.pos);
    assert(sub.data@ =~= region(reader.data@, h));
    sub
}

impl BoxHeader {
    /// Reads the header at the cursor.
    pub fn read(reader: &mut BoxReader) -> (r: Result<BoxHeader, Error>)
        ensures
            final(reader).data == old(reader).data,
            rv(r) == spec_header(old(reader).data@, old(reader).pos as int),
            r is Ok ==> final(reader).pos == old(reader).pos + r->Ok_0.header_len,
    {
        let start = reader.stream_position()?;
        let size32 = reader.read_u32()?;
        let code = reader.read_u32()?;
        let name = BoxType::from_code(code);
        let mut size = size32 as u64;
        let mut header_len = HEADER_LENGTH;
        if size32 == 1 {
            let size64 = reader.read_u64()?;
            if size64 >= 1 && size64 < 16 {
                return Err(Error::InvalidData("Invalid Box size".to_owned()));
            }
            size = size64;
            header_len = 16;
        } else if size32 >= 2 && size32 < 8 {
            return Err(Error::InvalidData("Invalid Box size".to_owned()));
        }
        if size > u64::MAX - start {
            return Err(Error::InvalidData("Invalid Box size".to_owned()));
        }
        Ok(BoxHeader { name, start, size, header_len })
    }

    /// The header of the pseudo-box that spans a whole stream.
    pub fn root(name: &str) -> (r: BoxHeader)
        requires
            name.spec_bytes().len() >= 4,
        ensures
            r.name == BoxType::Root(be32(name.spec_bytes(), 0)),
            r.start == 0,
            r.size == 0,
            r.header_len == HEADER_LENGTH,
            r.wf(),
    {
        BoxHeader { name: BoxType::Root(FourCC::from_str(name)), start: 0, size: 0, header_len: HEADER_LENGTH }
    }

    /// Where this box ends inside the cursor's buffer.
    pub fn end_in(&self, reader: &BoxReader) -> (r: u64)
        requires
            self.wf(),
        ensures
            r == box_end(reader.data@, *self),
    {
        if self.size == 0 {
            reader.data.len() as u64
        } else {
            self.start + self.size
        }
    }

    /// Moves the cursor past the rest of this box's content, `offset` bytes of which
    /// have already been read.
    pub fn skip_content(&self, reader: &mut BoxReader, offset: u64) -> (r: Result<(), Error>)
        requires
            self.wf(),
            self.size != 0 ==> offset <= self.size - self.header_len,
        ensures
            final(reader).data == old(reader).data,
            r is Ok,
            self.size != 0 && old(reader).pos + (self.size - self.header_len - offset) <= u64::MAX
                ==> final(reader).pos == old(reader).pos + (self.size - self.header_len - offset),
            self.size == 0 && old(reader).pos <= old(reader).data@.len()
                ==> final(reader).pos == old(reader).data@.len(),
    {
        if self.size == 0 {
            let len = reader.data.len() as u64;
            if reader.pos < len {
                reader.skip(len - reader.pos)
            } else {
                Ok(())
            }
        } else {
            reader.skip(self.size - self.header_len - offset)
        }
    }
}

} // verus!
