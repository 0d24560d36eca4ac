use vstd::prelude::*;

use crate::common::{matrix_at, Matrix};
use crate::error::{eof, prepend, rv, Error, ErrorView};
use vstd::utf8::{decode_utf8, pop_first_scalar, valid_utf8};
use crate::header::{at_content, box_end, BoxHeader};
use crate::parser::{be16, be24, be32, be64, fixed_text, text_at, utf8_string, BoxReader};

verus! {

/// Offset of the field that follows the four times of a full box of `version`
/// (32-bit creation, modification, timescale, duration for version 0; 64-bit times and
/// a 32-bit timescale for version 1), counted from the version byte at `p`.
pub open spec fn after_times(p: int, version: u8) -> int {
    if version == 0 {
        p + 20
    } else {
        p + 32
    }
}

/// A creation, modification or duration field: 32 bits in version 0, 64 in version 1.
pub open spec fn time_at(d: Seq<u8>, i: int, version: u8) -> u64 {
    if version == 0 {
        be32(d, i) as u64
    } else {
        be64(d, i)
    }
}

pub open spec fn unknown_version<T>() -> Result<T, ErrorView> {
    Err(ErrorView::InvalidData("unknown version"@))
}

/// Reads the creation, modification, timescale and duration fields of `version`.
fn read_times(reader: &mut BoxReader, version: u8) -> (r: Result<(u64, u64, u32, u64), Error>)
    requires
        version <= 1,
    ensures
        final(reader).data == old(reader).data,
        ({
            let d = old(reader).data@;
            let p = old(reader).pos - 4;
            if after_times(p, version) <= d.len() {
                &&& r == Ok::<(u64, u64, u32, u64), Error>(
                    (
                        time_at(d, p + 4, version),
                        if version == 0 { be32(d, p + 8) as u64 } else { be64(d, p + 12) },
                        if version == 0 { be32(d, p + 12) } else { be32(d, p + 20) },
                        if version == 0 { be32(d, p + 16) as u64 } else { be64(d, p + 24) },
                    ),
                )
                &&& final(reader).pos == after_times(p, version)
            } else {
                r matches Err(e) && e@ == ErrorView::Eof
            }
        }),
{
    if version == 0 {
        let c = reader.read_u32()?;
        let m = reader.read_u32()?;
        let t = reader.read_u32()?;
        let u = reader.read_u32()?;
        Ok((c as u64, m as u64, t, u as u64))
    } else {
        let c = reader.read_u64()?;
        let m = reader.read_u64()?;
        let t = reader.read_u32()?;
        let u = reader.read_u64()?;
        Ok((c, m, t, u))
    }
}

/// Movie header.
#[derive(Clone, Copy, Debug, PartialEq, Eq, Structural)]
pub struct MvhdBox {
    pub header: BoxHeader,
    pub version: u8,
    pub flags: u32,
    pub creation_time: u64,
    pub modification_time: u64,
    pub timescale: u32,
    pub duration: u64,
    pub rate: u32,
    pub volume: u16,
    pub matrix: Matrix,
    pub preview_time: u32,
    pub preview_duration: u32,
    pub poster_time: u32,
    pub selection_time: u32,
    pub selection_duration: u32,
    pub current_time: u32,
    pub next_track_id: u32,
}

impl View for MvhdBox {
    type V = MvhdBox;

    open spec fn view(&self) -> MvhdBox {
        *self
    }
}

/// The movie header whose content starts at `h.content_start()` in `d`.
pub open spec fn spec_mvhd(d: Seq<u8>, h: BoxHeader) -> Result<MvhdBox, ErrorView> {
    let p = h.content_start();
    if p + 4 > d.len() {
        eof()
    } else if d[p] > 1 {
        unknown_version()
    } else {
        let version = d[p];
        let q = after_times(p, version);
        if q + 80 > d.len() {
            eof()
        } else {
            Ok(
                MvhdBox {
                    header: h,
                    version,
                    flags: be24(d, p + 1),
                    creation_time: time_at(d, p + 4, version),
                    modification_time: if version == 0 {
                        be32(d, p + 8) as u64
                    } else {
                        be64(d, p + 12)
                    },
                    timescale: if version == 0 {
                        be32(d, p + 12)
                    } else {
                        be32(d, p + 20)
                    },
                    duration: if version == 0 {
                        be32(d, p + 16) as u64
                    } else {
                        be64(d, p + 24)
                    },
                    rate: be32(d, q),
                    volume: be16(d, q + 4),
                    matrix: matrix_at(d, q + 16),
                    preview_time: be32(d, q + 52),
                    preview_duration: be32(d, q + 56),
                    poster_time: be32(d, q + 60),
                    selection_time: be32(d, q + 64),
                    selection_duration: be32(d, q + 68),
                    current_time: be32(d, q + 72),
                    next_track_id: be32(d, q + 76),
                },
            )
        }
    }
}

impl MvhdBox {
    /// Decodes the content of the box `header`; on failure the cursor is left where it
    /// was.
    pub fn read(reader: &mut BoxReader, header: BoxHeader) -> (r: Result<MvhdBox, Error>)
        requires
            at_content(old(reader), header),
        ensures
            final(reader).data == old(reader).data,
            r is Err ==> final(reader).pos == old(reader).pos,
            r is Ok ==> final(reader).pos == box_end(old(reader).data@, header),
            rv(r) == spec_mvhd(old(reader).data@, header),
    {
        let start = reader.pos;
        match Self::decode(reader, header) {
            Ok(b) => Ok(b),
            Err(e) => {
                reader.pos = start;
                Err(e)
            },
        }
    }

    fn decode(reader: &mut BoxReader, header: BoxHeader) -> (r: Result<MvhdBox, Error>)
        requires
            at_content(old(reader), header),
        ensures
            final(reader).data == old(reader).data,
            r is Ok ==> final(reader).pos == box_end(old(reader).data@, header),
            rv(r) == spec_mvhd(old(reader).data@, header),
    {
        let (version, flags) = reader.read_header_extra()?;
        if version > 1 {
            return Err(Error::InvalidData("unknown version".to_owned()));
        }
        let (creation_time, modification_time, timescale, duration) = read_times(
            reader,
            version,
        )?;
        let rate = reader.read_u32()?;
        let volume = reader.read_u16()?;
        reader.advance(10)?;
        let matrix = Matrix::read(reader)?;
        let preview_time = reader.read_u32()?;
        let preview_duration = reader.read_u32()?;
        let poster_time = reader.read_u32()?;
        let selection_time = reader.read_u32()?;
        let selection_duration = reader.read_u32()?;
        let current_time = reader.read_u32()?;
        let next_track_id = reader.read_u32()?;
        reader.pos = header.end_in(reader);
        Ok(
            MvhdBox {
                header,
                version,
                flags,
                creation_time,
                modification_time,
                timescale,
                duration,
                rate,
                volume,
                matrix,
                preview_time,
                preview_duration,
                poster_time,
                selection_time,
                selection_duration,
                current_time,
                next_track_id,
            },
        )
    }
}

} // verus!

verus! {

/// Track header.
#[derive(Clone, Copy, Debug, PartialEq, Eq, Structural)]
pub struct TrackHeaderBox {
    pub header: BoxHeader,
    pub version: u8,
    pub flags: u32,
    pub creation_time: u64,
    pub modification_time: u64,
    pub track_id: u32,
    pub duration: u64,
    pub layer: u16,
    pub alternate_group: u16,
    pub volume: u16,
    pub matrix: Matrix,
    pub width: u32,
    pub height: u32,
}

impl View for TrackHeaderBox {
    type V = TrackHeaderBox;

    open spec fn view(&self) -> TrackHeaderBox {
        *self
    }
}

/// The track header whose content starts at `h.content_start()` in `d`.
pub open spec fn spec_tkhd(d: Seq<u8>, h: BoxHeader) -> Result<TrackHeaderBox, ErrorView> {
    let p = h.content_start();
    if p + 4 > d.len() {
        eof()
    } else if d[p] > 1 {
        unknown_version()
    } else {
        let version = d[p];
        let q = if version == 0 {
            p + 24
        } else {
            p + 36
        };
        if q + 60 > d.len() {
            eof()
        } else {
            Ok(
                TrackHeaderBox {
                    header: h,
                    version,
                    flags: be24(d, p + 1),
                    creation_time: time_at(d, p + 4, version),
                    modification_time: if version == 0 {
                        be32(d, p + 8) as u64
                    } else {
                        be64(d, p + 12)
                    },
                    track_id: if version == 0 {
                        be32(d, p + 12)
                    } else {
                        be32(d, p + 20)
                    },
                    duration: if version == 0 {
                        be32(d, p + 20) as u64
                    } else {
                        be64(d, p + 28)
                    },
                    layer: be16(d, q + 8),
                    alternate_group: be16(d, q + 10),
                    volume: be16(d, q + 12),
                    matrix: matrix_at(d, q + 16),
                    width: be32(d, q + 52),
                    height: be32(d, q + 56),
                },
            )
        }
    }
}

impl TrackHeaderBox {
    /// Decodes the content of the box `header`; on failure the cursor is left where it
    /// was.
    pub fn read(reader: &mut BoxReader, header: BoxHeader) -> (r: Result<TrackHeaderBox, Error>)
        requires
            at_content(old(reader), header),
        ensures
            final(reader).data == old(reader).data,
            r is Err ==> final(reader).pos == old(reader).pos,
            r is Ok ==> final(reader).pos == box_end(old(reader).data@, header),
            rv(r) == spec_tkhd(old(reader).data@, header),
    {
        let start = reader.pos;
        match Self::decode(reader, header) {
            Ok(b) => Ok(b),
            Err(e) => {
                reader.pos = start;
                Err(e)
            },
        }
    }

    fn decode(reader: &mut BoxReader, header: BoxHeader) -> (r: Result<TrackHeaderBox, Error>)
        requires
            at_content(old(reader), header),
        ensures
            final(reader).data == old(reader).data,
            r is Ok ==> final(reader).pos == box_end(old(reader).data@, header),
            rv(r) == spec_tkhd(old(reader).data@, header),
    {
        let (version, flags) = reader.read_header_extra()?;
        let (creation_time, modification_time, track_id, duration) = if version == 0 {
            let c = reader.read_u32()?;
            let m = reader.read_u32()?;
            let t = reader.read_u32()?;
            let _reserved = reader.read_u32()?;
            let u = reader.read_u32()?;
            (c as u64, m as u64, t, u as u64)
        } else if version == 1 {
            let c = reader.read_u64()?;
            let m = reader.read_u64()?;
            let t = reader.read_u32()?;
            let _reserved = reader.read_u32()?;
            let u = reader.read_u64()?;
            (c, m, t, u)
        } else {
            return Err(Error::InvalidData("unknown version".to_owned()));
        };
        reader.advance(8)?;
        let layer = reader.read_u16()?;
        let alternate_group = reader.read_u16()?;
        let volume = reader.read_u16()?;
        reader.advance(2)?;
        let matrix = Matrix::read(reader)?;
        let width = reader.read_u32()?;
        let height = reader.read_u32()?;
        reader.pos = header.end_in(reader);
        Ok(
            TrackHeaderBox {
                header,
                version,
                flags,
                creation_time,
                modification_time,
                track_id,
                duration,
                layer,
                alternate_group,
                volume,
                matrix,
                width,
                height,
            },
        )
    }
}

/// One letter of a packed ISO-639 language code: a five-bit field offset by 0x60.
pub open spec fn letter(field: int) -> char {
    ((field + 0x60) as u32) as char
}

/// The three letters that a packed language code names.
pub open spec fn language_of(code: u16) -> Seq<char> {
    seq![letter((code / 1024) as int % 32), letter((code / 32) as int % 32), letter(code as int % 32)]
}

/// Three bytes below 0x80 are valid UTF-8 and decode to the characters of the same values.
proof fn lemma_ascii_decodes(b0: u8, b1: u8, b2: u8)
    requires
        b0 < 0x80,
        b1 < 0x80,
        b2 < 0x80,
    ensures
        valid_utf8(seq![b0, b1, b2]),
        decode_utf8(seq![b0, b1, b2]) == seq![b0 as u32 as char, b1 as u32 as char, b2 as u32 as char],
{
    assert(b0 & 0x7f == b0) by (bit_vector)
        requires
            b0 < 0x80,
    ;
    assert(b1 & 0x7f == b1) by (bit_vector)
        requires
            b1 < 0x80,
    ;
    assert(b2 & 0x7f == b2) by (bit_vector)
        requires
            b2 < 0x80,
    ;
    let s3 = seq![b0, b1, b2];
    let s2 = seq![b1, b2];
    let s1 = seq![b2];
    assert(pop_first_scalar(s3) =~= s2);
    assert(pop_first_scalar(s2) =~= s1);
    assert(pop_first_scalar(s1) =~= Seq::<u8>::empty());
    reveal_with_fuel(valid_utf8, 4);
    reveal_with_fuel(decode_utf8, 4);
    assert(decode_utf8(s3) =~= seq![b0 as u32 as char, b1 as u32 as char, b2 as u32 as char]);
}

/// Unpacks a packed ISO-639 language code into its three letters.
pub fn language_string(language_code: u16) -> (r: String)
    ensures
        r@ == language_of(language_code),
{
    let b0 = ((language_code / 1024) % 32 + 0x60) as u8;
    let b1 = ((language_code / 32) % 32 + 0x60) as u8;
    let b2 = (language_code % 32 + 0x60) as u8;
    let bytes = vec![b0, b1, b2];
    proof {
        lemma_ascii_decodes(b0, b1, b2);
        assert(bytes@ =~= seq![b0, b1, b2]);
        assert(seq![b0 as u32 as char, b1 as u32 as char, b2 as u32 as char] =~= language_of(
            language_code,
        ));
    }
    match utf8_string(bytes) {
        Some(s) => s,
        None => String::new(),
    }
}

/// Media header.
#[derive(Clone, Debug)]
pub struct MediaHeaderBox {
    pub version: u8,
    pub flags: u32,
    pub creation_time: u64,
    pub modification_time: u64,
    pub timescale: u32,
    pub duration: u64,
    pub language_code: u16,
    pub language: String,
    pub quality: u16,
}

pub struct MediaHeaderView {
    pub version: u8,
    pub flags: u32,
    pub creation_time: u64,
    pub modification_time: u64,
    pub timescale: u32,
    pub duration: u64,
    pub language_code: u16,
    pub language: Seq<char>,
    pub quality: u16,
}

impl View for MediaHeaderBox {
    type V = MediaHeaderView;

    open spec fn view(&self) -> MediaHeaderView {
        MediaHeaderView {
            version: self.version,
            flags: self.flags,
            creation_time: self.creation_time,
            modification_time: self.modification_time,
            timescale: self.timescale,
            duration: self.duration,
            language_code: self.language_code,
            language: self.language@,
            quality: self.quality,
        }
    }
}

/// The media header whose content starts at `h.content_start()` in `d`.
pub open spec fn spec_mdhd(d: Seq<u8>, h: BoxHeader) -> Result<MediaHeaderView, ErrorView> {
    let p = h.content_start();
    if p + 4 > d.len() {
        eof()
    } else if d[p] > 1 {
        unknown_version()
    } else {
        let version = d[p];
        let q = after_times(p, version);
        if q + 4 > d.len() {
            eof()
        } else {
            Ok(
                MediaHeaderView {
                    version,
                    flags: be24(d, p + 1),
                    creation_time: time_at(d, p + 4, version),
                    modification_time: if version == 0 {
                        be32(d, p + 8) as u64
                    } else {
                        be64(d, p + 12)
                    },
                    timescale: if version == 0 {
                        be32(d, p + 12)
                    } else {
                        be32(d, p + 20)
                    },
                    duration: if version == 0 {
                        be32(d, p + 16) as u64
                    } else {
                        be64(d, p + 24)
                    },
                    language_code: be16(d, q),
                    language: language_of(be16(d, q)),
                    quality: be16(d, q + 2),
                },
            )
        }
    }
}

impl MediaHeaderBox {
    /// Decodes the content of the box `header`; on failure the cursor is left where it
    /// was.
    pub fn read(reader: &mut BoxReader, header: BoxHeader) -> (r: Result<MediaHeaderBox, Error>)
        requires
            at_content(old(reader), header),
        ensures
            final(reader).data == old(reader).data,
            r is Err ==> final(reader).pos == old(reader).pos,
            r is Ok ==> final(reader).pos == box_end(old(reader).data@, header),
            rv(r) == spec_mdhd(old(reader).data@, header),
    {
        let start = reader.pos;
        match Self::decode(reader, header) {
            Ok(b) => Ok(b),
            Err(e) => {
                reader.pos = start;
                Err(e)
            },
        }
    }

    fn decode(reader: &mut BoxReader, header: BoxHeader) -> (r: Result<MediaHeaderBox, Error>)
        requires
            at_content(old(reader), header),
        ensures
            final(reader).data == old(reader).data,
            r is Ok ==> final(reader).pos == box_end(old(reader).data@, header),
            rv(r) == spec_mdhd(old(reader).data@, header),
    {
        let (version, flags) = reader.read_header_extra()?;
        if version > 1 {
            return Err(Error::InvalidData("unknown version".to_owned()));
        }
        let (creation_time, modification_time, timescale, duration) = read_times(
            reader,
            version,
        )?;
        let language_code = reader.read_u16()?;
        let language = language_string(language_code);
        let quality = reader.read_u16()?;
        reader.pos = header.end_in(reader);
        Ok(
            MediaHeaderBox {
                version,
                flags,
                creation_time,
                modification_time,
                timescale,
                duration,
                language_code,
                language,
                quality,
            },
        )
    }
}

/// Length of the string field that runs from `q` to the end of the box `h`.
pub open spec fn tail_len(d: Seq<u8>, h: BoxHeader, q: int) -> int {
    if box_end(d, h) > q {
        box_end(d, h) - q
    } else {
        0
    }
}

/// Reads the text field that runs from the cursor to the end of the box `h`, all of it.
fn read_tail_text(reader: &mut BoxReader, header: BoxHeader) -> (r: Result<String, Error>)
    requires
        header.wf(),
    ensures
        final(reader).data == old(reader).data,
        rv(r) == fixed_text(
            old(reader).data@,
            old(reader).pos as int,
            tail_len(old(reader).data@, header, old(reader).pos as int),
        ),
{
    let end = header.end_in(reader);
    let n = if end > reader.pos {
        end - reader.pos
    } else {
        0
    };
    if n > reader.data.len() as u64 {
        return Err(Error::EOF());
    }
    reader.read_text(n as usize)
}

/// Reads the string field that runs from the cursor to the end of the box `h`; it ends at
/// its first NUL.
fn read_tail_string(reader: &mut BoxReader, header: BoxHeader) -> (r: Result<String, Error>)
    requires
        header.wf(),
    ensures
        final(reader).data == old(reader).data,
        rv(r) == text_at(
            old(reader).data@,
            old(reader).pos as int,
            tail_len(old(reader).data@, header, old(reader).pos as int),
        ),
{
    let end = header.end_in(reader);
    let n = if end > reader.pos {
        end - reader.pos
    } else {
        0
    };
    if n > reader.data.len() as u64 {
        return Err(Error::EOF());
    }
    reader.read_string(n as usize)
}

/// Handler reference.
#[derive(Clone, Debug)]
pub struct HandlerBox {
    pub version: u8,
    pub flags: u32,
    pub component_type: String,
    pub handler: String,
    pub name: String,
}

pub struct HandlerView {
    pub version: u8,
    pub flags: u32,
    pub component_type: Seq<char>,
    pub handler: Seq<char>,
    pub name: Seq<char>,
}

impl View for HandlerBox {
    type V = HandlerView;

    open spec fn view(&self) -> HandlerView {
        HandlerView {
            version: self.version,
            flags: self.flags,
            component_type: self.component_type@,
            handler: self.handler@,
            name: self.name@,
        }
    }
}

/// The handler whose content starts at `h.content_start()` in `d`: two four-byte codes,
/// twelve reserved bytes, then a name that fills the rest of the box.
pub open spec fn spec_hdlr(d: Seq<u8>, h: BoxHeader) -> Result<HandlerView, ErrorView> {
    let p = h.content_start();
    if p + 4 > d.len() {
        eof()
    } else {
        match fixed_text(d, p + 4, 4) {
            Err(e) => Err(e),
            Ok(component_type) => match fixed_text(d, p + 8, 4) {
                Err(e) => Err(e),
                Ok(handler) => if p + 24 > d.len() {
                    eof()
                } else {
                    match text_at(d, p + 24, tail_len(d, h, p + 24)) {
                        Err(e) => Err(e),
                        Ok(name) => Ok(
                            HandlerView {
                                version: d[p],
                                flags: be24(d, p + 1),
                                component_type,
                                handler,
                                name,
                            },
                        ),
                    }
                },
            },
        }
    }
}

impl HandlerBox {
    /// Decodes the content of the box `header`; on failure the cursor is left where it
    /// was.
    pub fn read(reader: &mut BoxReader, header: BoxHeader) -> (r: Result<HandlerBox, Error>)
        requires
            at_content(old(reader), header),
        ensures
            final(reader).data == old(reader).data,
            r is Err ==> final(reader).pos == old(reader).pos,
            r is Ok ==> final(reader).pos == box_end(old(reader).data@, header),
            rv(r) == spec_hdlr(old(reader).data@, header),
    {
        let start = reader.pos;
        match Self::decode(reader, header) {
            Ok(b) => Ok(b),
            Err(e) => {
                reader.pos = start;
                Err(e)
            },
        }
    }

    fn decode(reader: &mut BoxReader, header: BoxHeader) -> (r: Result<HandlerBox, Error>)
        requires
            at_content(old(reader), header),
        ensures
            final(reader).data == old(reader).data,
            r is Ok ==> final(reader).pos == box_end(old(reader).data@, header),
            rv(r) == spec_hdlr(old(reader).data@, header),
    {
        let (version, flags) = reader.read_header_extra()?;
        let component_type = reader.read_text(4)?;
        let handler = reader.read_text(4)?;
        reader.advance(12)?;
        let name = read_tail_string(reader, header)?;
        reader.pos = header.end_in(reader);
        Ok(HandlerBox { version, flags, component_type, handler, name })
    }
}

/// Video media information header.
#[derive(Clone, Copy, Debug)]
pub struct VideoInfoBox {
    pub version: u8,
    pub flags: u32,
    pub graphics_mode: u16,
    pub op_color: (u16, u16, u16),
}

impl View for VideoInfoBox {
    type V = VideoInfoBox;

    open spec fn view(&self) -> VideoInfoBox {
        *self
    }
}

pub open spec fn spec_vmhd(d: Seq<u8>, h: BoxHeader) -> Result<VideoInfoBox, ErrorView> {
    let p = h.content_start();
    if p + 12 > d.len() {
        eof()
    } else {
        Ok(
            VideoInfoBox {
                version: d[p],
                flags: be24(d, p + 1),
                graphics_mode: be16(d, p + 4),
                op_color: (be16(d, p + 6), be16(d, p + 8), be16(d, p + 10)),
            },
        )
    }
}

impl VideoInfoBox {
    /// Decodes the content of the box `header`; on failure the cursor is left where it
    /// was.
    pub fn read(reader: &mut BoxReader, header: BoxHeader) -> (r: Result<VideoInfoBox, Error>)
        requires
            at_content(old(reader), header),
        ensures
            final(reader).data == old(reader).data,
            r is Err ==> final(reader).pos == old(reader).pos,
            r is Ok ==> final(reader).pos == box_end(old(reader).data@, header),
            rv(r) == spec_vmhd(old(reader).data@, header),
    {
        let start = reader.pos;
        match Self::decode(reader, header) {
            Ok(b) => Ok(b),
            Err(e) => {
                reader.pos = start;
                Err(e)
            },
        }
    }

    fn decode(reader: &mut BoxReader, header: BoxHeader) -> (r: Result<VideoInfoBox, Error>)
        requires
            at_content(old(reader), header),
        ensures
            final(reader).data == old(reader).data,
            r is Ok ==> final(reader).pos == box_end(old(reader).data@, header),
            rv(r) == spec_vmhd(old(reader).data@, header),
    {
        let (version, flags) = reader.read_header_extra()?;
        let graphics_mode = reader.read_u16()?;
        let red = reader.read_u16()?;
        let green = reader.read_u16()?;
        let blue = reader.read_u16()?;
        reader.pos = header.end_in(reader);
        Ok(VideoInfoBox { version, flags, graphics_mode, op_color: (red, green, blue) })
    }
}

/// Sound media information header.
#[derive(Clone, Copy, Debug, PartialEq, Eq, Structural)]
pub struct SoundInfoBox {
    pub version: u8,
    pub flags: u32,
    pub balance: u16,
}

impl View for SoundInfoBox {
    type V = SoundInfoBox;

    open spec fn view(&self) -> SoundInfoBox {
        *self
    }
}

pub open spec fn spec_smhd(d: Seq<u8>, h: BoxHeader) -> Result<SoundInfoBox, ErrorView> {
    let p = h.content_start();
    if p + 6 > d.len() {
        eof()
    } else {
        Ok(SoundInfoBox { version: d[p], flags: be24(d, p + 1), balance: be16(d, p + 4) })
    }
}

impl SoundInfoBox {
    /// Decodes the content of the box `header`; on failure the cursor is left where it
    /// was.
    pub fn read(reader: &mut BoxReader, header: BoxHeader) -> (r: Result<SoundInfoBox, Error>)
        requires
            at_content(old(reader), header),
        ensures
            final(reader).data == old(reader).data,
            r is Err ==> final(reader).pos == old(reader).pos,
            r is Ok ==> final(reader).pos == box_end(old(reader).data@, header),
            rv(r) == spec_smhd(old(reader).data@, header),
    {
        let start = reader.pos;
        match Self::decode(reader, header) {
            Ok(b) => Ok(b),
            Err(e) => {
                reader.pos = start;
                Err(e)
            },
        }
    }

    fn decode(reader: &mut BoxReader, header: BoxHeader) -> (r: Result<SoundInfoBox, Error>)
        requires
            at_content(old(reader), header),
        ensures
            final(reader).data == old(reader).data,
            r is Ok ==> final(reader).pos == box_end(old(reader).data@, header),
            rv(r) == spec_smhd(old(reader).data@, header),
    {
        let (version, flags) = reader.read_header_extra()?;
        let balance = reader.read_u16()?;
        reader.pos = header.end_in(reader);
        Ok(SoundInfoBox { version, flags, balance })
    }
}

} // verus!

verus! {

/// `k` four-byte brand codes stored from `d[q..]`, or the first error met reading them.
pub open spec fn brands_from(d: Seq<u8>, q: int, k: nat) -> Result<Seq<Seq<char>>, ErrorView>
    decreases k,
{
    if k == 0 {
        Ok(Seq::empty())
    } else {
        match fixed_text(d, q, 4) {
            Err(e) => Err(e),
            Ok(b) => prepend(seq![b], brands_from(d, q + 4, (k - 1) as nat)),
        }
    }
}

/// File type: the major brand, its minor version, and the compatible brands that fill
/// the rest of the box.
#[derive(Clone, Debug)]
pub struct FtypBox {
    pub major_brand: String,
    pub minor_brand: u32,
    pub compatible_brands: Vec<String>,
}

pub struct FtypView {
    pub major_brand: Seq<char>,
    pub minor_brand: u32,
    pub compatible_brands: Seq<Seq<char>>,
}

impl View for FtypBox {
    type V = FtypView;

    open spec fn view(&self) -> FtypView {
        FtypView {
            major_brand: self.major_brand@,
            minor_brand: self.minor_brand,
            compatible_brands: self.compatible_brands@.map_values(|s: String| s@),
        }
    }
}

pub open spec fn spec_ftyp(d: Seq<u8>, h: BoxHeader) -> Result<FtypView, ErrorView> {
    let p = h.content_start();
    let len = box_end(d, h) - p;
    if len < 8 || len % 4 != 0 {
        Err(ErrorView::InvalidData("ftyp has a wrong size"@))
    } else {
        match fixed_text(d, p, 4) {
            Err(e) => Err(e),
            Ok(major_brand) => if p + 8 > d.len() {
                eof()
            } else {
                match brands_from(d, p + 8, ((len - 8) / 4) as nat) {
                    Err(e) => Err(e),
                    Ok(compatible_brands) => Ok(
                        FtypView { major_brand, minor_brand: be32(d, p + 4), compatible_brands },
                    ),
                }
            },
        }
    }
}

impl FtypBox {
    pub fn default() -> (r: FtypBox)
        ensures
            r.major_brand@ == Seq::<char>::empty(),
            r.minor_brand == 0,
            r.compatible_brands@.len() == 0,
    {
        FtypBox { major_brand: String::new(), minor_brand: 0, compatible_brands: Vec::new() }
    }

    /// Decodes the content of the box `header`; on failure the cursor is left where it
    /// was.
    pub fn read(reader: &mut BoxReader, header: BoxHeader) -> (r: Result<FtypBox, Error>)
        requires
            at_content(old(reader), header),
        ensures
            final(reader).data == old(reader).data,
            r is Err ==> final(reader).pos == old(reader).pos,
            r is Ok ==> final(reader).pos == box_end(old(reader).data@, header),
            rv(r) == spec_ftyp(old(reader).data@, header),
    {
        let start = reader.pos;
        match Self::decode(reader, header) {
            Ok(b) => Ok(b),
            Err(e) => {
                reader.pos = start;
                Err(e)
            },
        }
    }

    fn decode(reader: &mut BoxReader, header: BoxHeader) -> (r: Result<FtypBox, Error>)
        requires
            at_content(old(reader), header),
        ensures
            final(reader).data == old(reader).data,
            r is Ok ==> final(reader).pos == box_end(old(reader).data@, header),
            rv(r) == spec_ftyp(old(reader).data@, header),
    {
        let ghost d = reader.data@;
        let p = reader.pos;
        let end = header.end_in(reader);
        if end < p || end - p < 8 || (end - p) % 4 != 0 {
            return Err(Error::InvalidData("ftyp has a wrong size".to_owned()));
        }
        let major_brand = reader.read_text(4)?;
        let minor_brand = reader.read_u32()?;
        let count = (end - p - 8) / 4;
        let mut compatible_brands: Vec<String> = Vec::new();
        let mut i: u64 = 0;
        while i < count
            invariant
                reader.data == old(reader).data,
                d == reader.data@,
                fixed_text(d, p as int, 4) == Ok::<Seq<char>, ErrorView>(major_brand@),
                p + 8 <= d.len(),
                minor_brand == be32(d, p + 4),
                p == header.content_start(),
                count == (box_end(d, header) - p - 8) / 4,
                box_end(d, header) - p >= 8,
                (box_end(d, header) - p) % 4 == 0,
                i <= count,
                reader.pos == p + 8 + 4 * i,
                brands_from(d, p + 8, count as nat) == prepend(
                    compatible_brands@.map_values(|s: String| s@),
                    brands_from(d, reader.pos as int, (count - i) as nat),
                ),
            decreases count - i,
        {
            let ghost before = compatible_brands@.map_values(|s: String| s@);
            let ghost q = reader.pos as int;
            let brand = match reader.read_text(4) {
                Ok(b) => b,
                Err(e) => {
                    assert(brands_from(d, q, (count - i) as nat) == Err::<Seq<Seq<char>>, ErrorView>(e@));
                    return Err(e);
                },
            };
            compatible_brands.push(brand);
            proof {
                assert(compatible_brands@.map_values(|s: String| s@) =~= before + seq![brand@]);
                assert(brands_from(d, p + 8 + 4 * i, (count - i) as nat) == prepend(
                    seq![brand@],
                    brands_from(d, p + 8 + 4 * (i + 1), (count - i - 1) as nat),
                ));
                match brands_from(d, p + 8 + 4 * (i + 1), (count - i - 1) as nat) {
                    Ok(t) => {
                        assert(before + (seq![brand@] + t) =~= (before + seq![brand@]) + t);
                    },
                    Err(_) => {},
                }
            }
            i = i + 1;
        }
        proof {
            assert(compatible_brands@.map_values(|s: String| s@) + Seq::empty() =~= compatible_brands@.map_values(|s: String| s@));
        }
        reader.pos = header.end_in(reader);
        Ok(FtypBox { major_brand, minor_brand, compatible_brands })
    }
}

/// Media data: its payload is located by the element's header and never read.
#[derive(Clone, Copy, Debug, PartialEq, Eq, Structural)]
pub struct MediaDataBox {}

/// Padding.
#[derive(Clone, Copy, Debug, PartialEq, Eq, Structural)]
pub struct WideBox {
    pub header: BoxHeader,
}

/// A box of a kind the registry does not hold: skipped, nothing kept.
#[derive(Clone, Copy, Debug, PartialEq, Eq, Structural)]
pub struct SkipBox {}

impl View for MediaDataBox {
    type V = MediaDataBox;

    open spec fn view(&self) -> MediaDataBox {
        *self
    }
}

impl View for WideBox {
    type V = WideBox;

    open spec fn view(&self) -> WideBox {
        *self
    }
}

impl View for SkipBox {
    type V = SkipBox;

    open spec fn view(&self) -> SkipBox {
        *self
    }
}

impl MediaDataBox {
    pub fn read(reader: &mut BoxReader, header: BoxHeader) -> (r: Result<MediaDataBox, Error>)
        requires
            at_content(old(reader), header),
        ensures
            final(reader).data == old(reader).data,
            r is Ok ==> final(reader).pos == box_end(old(reader).data@, header),
            r == Ok::<MediaDataBox, Error>(MediaDataBox {  }),
    {
        reader.pos = header.end_in(reader);
        Ok(MediaDataBox {  })
    }
}

impl WideBox {
    pub fn read(reader: &mut BoxReader, header: BoxHeader) -> (r: Result<WideBox, Error>)
        requires
            at_content(old(reader), header),
        ensures
            final(reader).data == old(reader).data,
            r is Ok ==> final(reader).pos == box_end(old(reader).data@, header),
            r == Ok::<WideBox, Error>(WideBox { header }),
    {
        reader.pos = header.end_in(reader);
        Ok(WideBox { header })
    }
}

impl SkipBox {
    pub fn read(reader: &mut BoxReader, header: BoxHeader) -> (r: Result<SkipBox, Error>)
        requires
            at_content(old(reader), header),
        ensures
            final(reader).data == old(reader).data,
            r is Ok ==> final(reader).pos == box_end(old(reader).data@, header),
            r == Ok::<SkipBox, Error>(SkipBox {  }),
    {
        reader.pos = header.end_in(reader);
        Ok(SkipBox {  })
    }
}

/// Data location given by a URL.
#[derive(Clone, Debug)]
pub struct UrlBox {
    pub header: BoxHeader,
    pub version: u8,
    pub flags: u32,
    pub location: String,
}

pub struct UrlView {
    pub header: BoxHeader,
    pub version: u8,
    pub flags: u32,
    pub location: Seq<char>,
}

impl View for UrlBox {
    type V = UrlView;

    open spec fn view(&self) -> UrlView {
        UrlView {
            header: self.header,
            version: self.version,
            flags: self.flags,
            location: self.location@,
        }
    }
}

pub open spec fn spec_url(d: Seq<u8>, h: BoxHeader) -> Result<UrlView, ErrorView> {
    let p = h.content_start();
    if p + 4 > d.len() {
        eof()
    } else {
        match fixed_text(d, p + 4, tail_len(d, h, p + 4)) {
            Err(e) => Err(e),
            Ok(location) => Ok(
                UrlView { header: h, version: d[p], flags: be24(d, p + 1), location },
            ),
        }
    }
}

impl UrlBox {
    /// Decodes the content of the box `header`; on failure the cursor is left where it
    /// was.
    pub fn read(reader: &mut BoxReader, header: BoxHeader) -> (r: Result<UrlBox, Error>)
        requires
            at_content(old(reader), header),
        ensures
            final(reader).data == old(reader).data,
            r is Err ==> final(reader).pos == old(reader).pos,
            r is Ok ==> final(reader).pos == box_end(old(reader).data@, header),
            rv(r) == spec_url(old(reader).data@, header),
    {
        let start = reader.pos;
        match Self::decode(reader, header) {
            Ok(b) => Ok(b),
            Err(e) => {
                reader.pos = start;
                Err(e)
            },
        }
    }

    fn decode(reader: &mut BoxReader, header: BoxHeader) -> (r: Result<UrlBox, Error>)
        requires
            at_content(old(reader), header),
        ensures
            final(reader).data == old(reader).data,
            r is Ok ==> final(reader).pos == box_end(old(reader).data@, header),
            rv(r) == spec_url(old(reader).data@, header),
    {
        let (version, flags) = reader.read_header_extra()?;
        let location = read_tail_text(reader, header)?;
        reader.pos = header.end_in(reader);
        Ok(UrlBox { header, version, flags, location })
    }
}

} // verus!
