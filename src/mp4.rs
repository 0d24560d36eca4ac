use vstd::prelude::*;

use crate::container::{room, spec_children, spec_container};
use crate::error::{prepend, rv, Error, ErrorView};
use crate::header::{region, sub_reader, BoxHeader, BoxType, HEADER_LENGTH};
use crate::leaf::{spec_tkhd, TrackHeaderBox, WideBox};
use crate::parser::{typed_header, BoxParser, BoxReader};
use crate::tables::{spec_elst, spec_stsc, EditListBox, SampleToChunkBox};
use crate::tree::{BoxElement, ElementView, ListBox, MediaInfoBox};

verus! {

/// The code of the pseudo-box that spans a whole file: `Mp4 `.
pub const ROOT_CODE: u32 = 0x4d703420;

/// A whole file: its file-type, movie and media-data boxes.
#[derive(Debug)]
pub struct Mp4 {
    pub ftyp: BoxElement,
    pub moov: BoxElement,
    pub mdat: BoxElement,
    /// Whether a top-level padding box was met.
    pub is_wide: bool,
}

pub struct Mp4View {
    pub ftyp: ElementView,
    pub moov: ElementView,
    pub mdat: ElementView,
    pub is_wide: bool,
}

impl View for Mp4 {
    type V = Mp4View;

    open spec fn view(&self) -> Mp4View {
        Mp4View { ftyp: self.ftyp@, moov: self.moov@, mdat: self.mdat@, is_wide: self.is_wide }
    }
}

/// The last element of `s` whose kind is `t`.
pub open spec fn last_named(s: Seq<ElementView>, t: BoxType) -> Option<ElementView>
    decreases s.len(),
{
    if s.len() == 0 {
        None
    } else if s.last().header.name == t {
        Some(s.last())
    } else {
        last_named(s.drop_last(), t)
    }
}

pub open spec fn opt_view(o: Option<BoxElement>) -> Option<ElementView> {
    match o {
        Some(e) => Some(e@),
        None => None,
    }
}

/// The file stored in `d`: the top-level boxes are scanned to the end of the bytes, and
/// the last file-type, movie and media-data boxes are kept; each must be present. A
/// padding box is recorded and nothing more.
pub open spec fn spec_mp4(d: Seq<u8>) -> Result<Mp4View, ErrorView> {
    match spec_children(d, 0, 0, None) {
        Err(e) => Err(e),
        Ok(top) => match (
            last_named(top, BoxType::FileType),
            last_named(top, BoxType::Movie),
            last_named(top, BoxType::MediaData),
        ) {
            (None, _, _) => Err(ErrorView::BoxNotFound("Mp4: Ftyp box is mandatory"@)),
            (_, None, _) => Err(ErrorView::BoxNotFound("Mp4: Moov box is mandatory"@)),
            (_, _, None) => Err(ErrorView::BoxNotFound("Mp4: Mdat box is mandatory"@)),
            (Some(ftyp), Some(moov), Some(mdat)) => Ok(
                Mp4View { ftyp, moov, mdat, is_wide: last_named(top, BoxType::Wide) is Some },
            ),
        },
    }
}

impl Mp4 {
    /// Decodes a whole file, one top-level box at a time.
    pub fn parse(src: &[u8]) -> (r: Result<Mp4, Error>)
        ensures
            rv(r) == spec_mp4(src@),
    {
        let ghost d = src@;
        let mut reader = BoxReader::new(src);
        let header = BoxHeader {
            name: BoxType::Root(ROOT_CODE),
            start: 0,
            size: 0,
            header_len: HEADER_LENGTH,
        };
        let mut iter = ListBox::iter(header);
        let mut ftyp: Option<BoxElement> = None;
        let mut moov: Option<BoxElement> = None;
        let mut mdat: Option<BoxElement> = None;
        let mut is_wide = false;
        let ghost mut seen: Seq<ElementView> = Seq::empty();
        loop
            invariant_except_break
                iter.wf(),
                iter.bound() is None,
                spec_children(d, 0, 0, None) == prepend(
                    seen,
                    spec_children(d, reader.pos as int, iter.content_parsed_size as int, None),
                ),
            invariant
                reader.data@ == d,
                d == src@,
                opt_view(ftyp) == last_named(seen, BoxType::FileType),
                opt_view(moov) == last_named(seen, BoxType::Movie),
                opt_view(mdat) == last_named(seen, BoxType::MediaData),
                is_wide == last_named(seen, BoxType::Wide) is Some,
            ensures
                spec_children(d, 0, 0, None) == Ok::<Seq<ElementView>, ErrorView>(seen),
            decreases room(d, reader.pos as int),
        {
            let ghost before = seen;
            let ghost p = reader.pos as int;
            let ghost c = iter.content_parsed_size as int;
            let step = match iter.next(&mut reader) {
                Ok(s) => s,
                Err(e) => {
                    assert(spec_children(d, p, c, None) == Err::<Seq<ElementView>, ErrorView>(e@));
                    assert(spec_children(d, 0, 0, None) == Err::<Seq<ElementView>, ErrorView>(e@));
                    return Err(e);
                },
            };
            match step {
                None => {
                    assert(before + Seq::empty() =~= before);
                    break ;
                },
                Some(child) => {
                    proof {
                        seen = before.push(child@);
                        assert(seen.drop_last() =~= before);
                        match spec_children(
                            d,
                            reader.pos as int,
                            iter.content_parsed_size as int,
                            None,
                        ) {
                            Ok(t) => {
                                assert(before + (seq![child@] + t) =~= seen + t);
                            },
                            Err(_) => {},
                        }
                    }
                    match child.header.name {
                        BoxType::FileType => {
                            ftyp = Some(child);
                        },
                        BoxType::Movie => {
                            moov = Some(child);
                        },
                        BoxType::MediaData => {
                            mdat = Some(child);
                        },
                        BoxType::Wide => {
                            is_wide = true;
                        },
                        _ => {},
                    }
                },
            }
        }
        let ftyp = match ftyp {
            Some(e) => e,
            None => {
                return Err(Error::BoxNotFound("Mp4: Ftyp box is mandatory".to_owned()));
            },
        };
        let moov = match moov {
            Some(e) => e,
            None => {
                return Err(Error::BoxNotFound("Mp4: Moov box is mandatory".to_owned()));
            },
        };
        let mdat = match mdat {
            Some(e) => e,
            None => {
                return Err(Error::BoxNotFound("Mp4: Mdat box is mandatory".to_owned()));
            },
        };
        Ok(Mp4 { ftyp, moov, mdat, is_wide })
    }
}

impl TrackHeaderBox {
    /// Reads a whole `TrackHeaderBox` whose header is at the parser's cursor, and leaves the cursor at
    /// its end.
    pub fn parse(parser: &mut BoxParser) -> (r: Result<TrackHeaderBox, Error>)
        ensures
            final(parser).reader.data == old(parser).reader.data,
            ({
                let d = old(parser).reader.data@;
                rv(r) == match typed_header(d, old(parser).reader.pos as int, BoxType::TrackHeader) {
                    Err(e) => Err(e),
                    Ok(h) => spec_tkhd(region(d, h), h),
                }
            }),
    {
        let ghost d = parser.reader.data@;
        let ghost p = parser.reader.pos as int;
        let header = parser.next_header_with_type(BoxType::TrackHeader)?;
        proof {
            crate::header::lemma_header_wf(d, p);
        }
        let end = header.end_in(&parser.reader);
        let mut sub = sub_reader(&parser.reader, header);
        let b = TrackHeaderBox::read(&mut sub, header)?;
        parser.reader.pos = end;
        Ok(b)
    }
}

impl EditListBox {
    /// Reads a whole `EditListBox` whose header is at the parser's cursor, and leaves the cursor at
    /// its end.
    pub fn parse(parser: &mut BoxParser) -> (r: Result<EditListBox, Error>)
        ensures
            final(parser).reader.data == old(parser).reader.data,
            ({
                let d = old(parser).reader.data@;
                rv(r) == match typed_header(d, old(parser).reader.pos as int, BoxType::EditList) {
                    Err(e) => Err(e),
                    Ok(h) => spec_elst(region(d, h), h),
                }
            }),
    {
        let ghost d = parser.reader.data@;
        let ghost p = parser.reader.pos as int;
        let header = parser.next_header_with_type(BoxType::EditList)?;
        proof {
            crate::header::lemma_header_wf(d, p);
        }
        let end = header.end_in(&parser.reader);
        let mut sub = sub_reader(&parser.reader, header);
        let b = EditListBox::read(&mut sub, header)?;
        parser.reader.pos = end;
        Ok(b)
    }
}

impl SampleToChunkBox {
    /// Reads a whole `SampleToChunkBox` whose header is at the parser's cursor, and leaves the cursor at
    /// its end.
    pub fn parse(parser: &mut BoxParser) -> (r: Result<SampleToChunkBox, Error>)
        ensures
            final(parser).reader.data == old(parser).reader.data,
            ({
                let d = old(parser).reader.data@;
                rv(r) == match typed_header(d, old(parser).reader.pos as int, BoxType::SampleToChunk) {
                    Err(e) => Err(e),
                    Ok(h) => spec_stsc(region(d, h), h),
                }
            }),
    {
        let ghost d = parser.reader.data@;
        let ghost p = parser.reader.pos as int;
        let header = parser.next_header_with_type(BoxType::SampleToChunk)?;
        proof {
            crate::header::lemma_header_wf(d, p);
        }
        let end = header.end_in(&parser.reader);
        let mut sub = sub_reader(&parser.reader, header);
        let b = SampleToChunkBox::read(&mut sub, header)?;
        parser.reader.pos = end;
        Ok(b)
    }
}

impl MediaInfoBox {
    /// Reads a whole `MediaInfoBox` whose header is at the parser's cursor, and leaves the cursor at
    /// its end.
    pub fn parse(parser: &mut BoxParser) -> (r: Result<MediaInfoBox, Error>)
        ensures
            final(parser).reader.data == old(parser).reader.data,
            ({
                let d = old(parser).reader.data@;
                rv(r) == match typed_header(d, old(parser).reader.pos as int, BoxType::MediaInfo) {
                    Err(e) => Err(e),
                    Ok(h) => spec_container(region(d, h), h),
                }
            }),
    {
        let ghost d = parser.reader.data@;
        let ghost p = parser.reader.pos as int;
        let header = parser.next_header_with_type(BoxType::MediaInfo)?;
        proof {
            crate::header::lemma_header_wf(d, p);
        }
        let end = header.end_in(&parser.reader);
        let mut sub = sub_reader(&parser.reader, header);
        let b = MediaInfoBox::read(&mut sub, header)?;
        parser.reader.pos = end;
        Ok(b)
    }
}

impl WideBox {
    /// Reads a whole `WideBox` whose header is at the parser's cursor, and leaves the cursor at
    /// its end.
    pub fn parse(parser: &mut BoxParser) -> (r: Result<WideBox, Error>)
        ensures
            final(parser).reader.data == old(parser).reader.data,
            ({
                let d = old(parser).reader.data@;
                rv(r) == match typed_header(d, old(parser).reader.pos as int, BoxType::Wide) {
                    Err(e) => Err(e),
                    Ok(h) => Ok(WideBox { header: h }),
                }
            }),
    {
        let ghost d = parser.reader.data@;
        let ghost p = parser.reader.pos as int;
        let header = parser.next_header_with_type(BoxType::Wide)?;
        proof {
            crate::header::lemma_header_wf(d, p);
        }
        let end = header.end_in(&parser.reader);
        let mut sub = sub_reader(&parser.reader, header);
        let b = WideBox::read(&mut sub, header)?;
        parser.reader.pos = end;
        Ok(b)
    }
}

impl BoxHeader {
    /// Reads the header at the parser's cursor.
    pub fn parse(parser: &mut BoxParser) -> (r: Result<BoxHeader, Error>)
        ensures
            final(parser).reader.data == old(parser).reader.data,
            rv(r) == crate::header::spec_header(
                old(parser).reader.data@,
                old(parser).reader.pos as int,
            ),
    {
        parser.next_header()
    }
}

/// Decoding a whole file is a function of its bytes: two decodings of the same bytes
/// give structurally equal results.
pub proof fn lemma_parse_idempotent(d: Seq<u8>, first: Result<Mp4, Error>, second: Result<Mp4, Error>)
    requires
        rv(first) == spec_mp4(d),
        rv(second) == spec_mp4(d),
    ensures
        rv(first) == rv(second),
{
}

} // verus!
