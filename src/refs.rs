use vstd::prelude::*;

use crate::error::{eof, prepend, rv, Error, ErrorView};
use crate::header::{at_content, box_end, region, spec_header, sub_reader, BoxHeader, BoxType};
use crate::leaf::{spec_url, UrlBox, UrlView};
use crate::parser::{be24, be32, BoxReader};
use crate::tables::{spec_elst, EditListBox, EditListView};

verus! {

/// One data reference.
#[derive(Clone, Debug)]
pub enum Reference {
    Url(UrlBox),
}

pub enum ReferenceView {
    Url(UrlView),
}

impl View for Reference {
    type V = ReferenceView;

    open spec fn view(&self) -> ReferenceView {
        match self {
            Reference::Url(u) => ReferenceView::Url(u@),
        }
    }
}

/// Data references: `url ` children, up to the declared count and never past the box's end.
#[derive(Clone, Debug)]
pub struct DataReferenceBox {
    pub header: BoxHeader,
    pub version: u8,
    pub flags: u32,
    pub references: Vec<Reference>,
}

pub struct DataReferenceView {
    pub header: BoxHeader,
    pub version: u8,
    pub flags: u32,
    pub references: Seq<ReferenceView>,
}

impl View for DataReferenceBox {
    type V = DataReferenceView;

    open spec fn view(&self) -> DataReferenceView {
        DataReferenceView {
            header: self.header,
            version: self.version,
            flags: self.flags,
            references: self.references@.map_values(|r: Reference| r@),
        }
    }
}

/// The references among at most `k` children read from `q`, stopping at `end` or where
/// the bytes run out. Every child must be a `url ` box that ends within `end`.
pub open spec fn spec_refs(d: Seq<u8>, q: int, k: nat, end: int) -> Result<
    Seq<ReferenceView>,
    ErrorView,
>
    decreases k,
{
    if k == 0 || q >= end {
        Ok(Seq::empty())
    } else {
        match spec_header(d, q) {
            Err(ErrorView::Eof) => Ok(Seq::empty()),
            Err(e) => Err(e),
            Ok(ch) => if box_end(d, ch) > end {
                overrun()
            } else if ch.name != BoxType::UrlRef {
                Err(ErrorView::InvalidBoxType)
            } else {
                match spec_url(region(d, ch), ch) {
                    Err(e) => Err(e),
                    Ok(u) => prepend(
                        seq![ReferenceView::Url(u)],
                        spec_refs(d, box_end(d, ch), (k - 1) as nat, end),
                    ),
                }
            },
        }
    }
}

/// A child box that claims bytes past the end of its parent.
pub open spec fn overrun<T>() -> Result<T, ErrorView> {
    Err(ErrorView::InvalidData("child box overruns its parent"@))
}

pub open spec fn spec_dref(d: Seq<u8>, h: BoxHeader) -> Result<DataReferenceView, ErrorView> {
    let p = h.content_start();
    if p + 8 > d.len() {
        eof()
    } else {
        match spec_refs(d, p + 8, be32(d, p + 4) as nat, box_end(d, h)) {
            Err(e) => Err(e),
            Ok(references) => Ok(
                DataReferenceView { header: h, version: d[p], flags: be24(d, p + 1), references },
            ),
        }
    }
}

impl DataReferenceBox {
    /// Decodes the content of the box `header`; on failure the cursor is left where it
    /// was.
    pub fn read(reader: &mut BoxReader, header: BoxHeader) -> (r: Result<DataReferenceBox, Error>)
        requires
            at_content(old(reader), header),
        ensures
            final(reader).data == old(reader).data,
            r is Err ==> final(reader).pos == old(reader).pos,
            r is Ok ==> final(reader).pos == box_end(old(reader).data@, header),
            rv(r) == spec_dref(old(reader).data@, header),
    {
        let start = reader.pos;
        match Self::decode(reader, header) {
            Ok(b) => Ok(b),
            Err(e) => {
                reader.pos = start;
                Err(e)
            },
        }
    }

    fn decode(reader: &mut BoxReader, header: BoxHeader) -> (r: Result<DataReferenceBox, Error>)
        requires
            at_content(old(reader), header),
        ensures
            final(reader).data == old(reader).data,
            r is Ok ==> final(reader).pos == box_end(old(reader).data@, header),
            rv(r) == spec_dref(old(reader).data@, header),
    {
        let ghost d = reader.data@;
        let (version, flags) = reader.read_header_extra()?;
        let entry_count = reader.read_u32()?;
        let end = header.end_in(reader);
        let ghost q0 = reader.pos as int;
        let mut references: Vec<Reference> = Vec::new();
        let mut i: u32 = 0;
        while i < entry_count
            invariant
                reader.data == old(reader).data,
                d == reader.data@,
                end == box_end(d, header),
                q0 == header.content_start() + 8,
                q0 <= d.len(),
                version == d[header.content_start()],
                flags == be24(d, header.content_start() + 1),
                entry_count == be32(d, header.content_start() + 4),
                i <= entry_count,
                spec_refs(d, q0, entry_count as nat, end as int) == prepend(
                    references@.map_values(|r: Reference| r@),
                    spec_refs(d, reader.pos as int, (entry_count - i) as nat, end as int),
                ),
            ensures
                spec_refs(d, reader.pos as int, (entry_count - i) as nat, end as int) == Ok::<
                    Seq<ReferenceView>,
                    ErrorView,
                >(Seq::empty()),
            decreases entry_count - i,
        {
            let ghost before = references@.map_values(|r: Reference| r@);
            let ghost q = reader.pos as int;
            if reader.pos >= end {
                break;
            }
            let here = reader.pos;
            let child = match BoxHeader::read(reader) {
                Ok(h) => h,
                Err(e) => {
                    if e.is_eof() {
                        reader.pos = here;
                        break;
                    }
                    return Err(e);
                },
            };
            proof {
                crate::header::lemma_header_wf(d, q);
            }
            let next = child.end_in(reader);
            if next > end {
                return Err(Error::InvalidData("child box overruns its parent".to_owned()));
            }
            if child.name != BoxType::UrlRef {
                return Err(Error::InvalidBoxType());
            }
            let mut sub = sub_reader(reader, child);
            let url = UrlBox::read(&mut sub, child)?;
            references.push(Reference::Url(url));
            proof {
                assert(references@.map_values(|r: Reference| r@) =~= before + seq![
                    ReferenceView::Url(url@),
                ]);
                match spec_refs(d, next as int, (entry_count - i - 1) as nat, end as int) {
                    Ok(t) => {
                        assert(before + (seq![ReferenceView::Url(url@)] + t) =~= (before + seq![
                            ReferenceView::Url(url@),
                        ]) + t);
                    },
                    Err(_) => {},
                }
            }
            reader.pos = next;
            i = i + 1;
        }
        proof {
            assert(references@.map_values(|r: Reference| r@) + Seq::empty() =~= references@.map_values(
                |r: Reference| r@,
            ));
        }
        reader.pos = end;
        Ok(DataReferenceBox { header, version, flags, references })
    }
}

/// Data information: exactly one child, a data reference that fills the box.
#[derive(Clone, Debug)]
pub struct DataInfoBox {
    pub data_reference: DataReferenceBox,
}

pub struct DataInfoView {
    pub data_reference: DataReferenceView,
}

impl View for DataInfoBox {
    type V = DataInfoView;

    open spec fn view(&self) -> DataInfoView {
        DataInfoView { data_reference: self.data_reference@ }
    }
}

pub open spec fn spec_dinf(d: Seq<u8>, h: BoxHeader) -> Result<DataInfoView, ErrorView> {
    match spec_header(d, h.content_start()) {
        Err(e) => Err(e),
        Ok(ch) => if ch.name != BoxType::DataRef {
            Err(ErrorView::InvalidBoxType)
        } else {
            match spec_dref(region(d, ch), ch) {
                Err(e) => Err(e),
                Ok(data_reference) => if box_end(d, ch) > box_end(d, h) {
                    overrun()
                } else if box_end(d, ch) < box_end(d, h) {
                    Err(ErrorView::InvalidBoxType)
                } else {
                    Ok(DataInfoView { data_reference })
                },
            }
        },
    }
}

impl DataInfoBox {
    /// Decodes the content of the box `header`; on failure the cursor is left where it
    /// was.
    pub fn read(reader: &mut BoxReader, header: BoxHeader) -> (r: Result<DataInfoBox, Error>)
        requires
            at_content(old(reader), header),
        ensures
            final(reader).data == old(reader).data,
            r is Err ==> final(reader).pos == old(reader).pos,
            r is Ok ==> final(reader).pos == box_end(old(reader).data@, header),
            rv(r) == spec_dinf(old(reader).data@, header),
    {
        let start = reader.pos;
        match Self::decode(reader, header) {
            Ok(b) => Ok(b),
            Err(e) => {
                reader.pos = start;
                Err(e)
            },
        }
    }

    fn decode(reader: &mut BoxReader, header: BoxHeader) -> (r: Result<DataInfoBox, Error>)
        requires
            at_content(old(reader), header),
        ensures
            final(reader).data == old(reader).data,
            r is Ok ==> final(reader).pos == box_end(old(reader).data@, header),
            rv(r) == spec_dinf(old(reader).data@, header),
    {
        let ghost q = reader.pos as int;
        let child = BoxHeader::read(reader)?;
        proof {
            crate::header::lemma_header_wf(reader.data@, q);
        }
        if child.name != BoxType::DataRef {
            return Err(Error::InvalidBoxType());
        }
        let mut sub = sub_reader(reader, child);
        let data_reference = DataReferenceBox::read(&mut sub, child)?;
        let end = header.end_in(reader);
        let child_end = child.end_in(reader);
        if child_end > end {
            return Err(Error::InvalidData("child box overruns its parent".to_owned()));
        }
        if child_end < end {
            return Err(Error::InvalidBoxType());
        }
        reader.pos = end;
        Ok(DataInfoBox { data_reference })
    }
}

/// Edit: empty, or exactly one edit-list child that fills the box.
#[derive(Clone, Debug)]
pub struct EditBox {
    pub list: Option<EditListBox>,
}

pub struct EditView {
    pub list: Option<EditListView>,
}

impl View for EditBox {
    type V = EditView;

    open spec fn view(&self) -> EditView {
        EditView {
            list: match self.list {
                Some(l) => Some(l@),
                None => None,
            },
        }
    }
}

pub open spec fn spec_edts(d: Seq<u8>, h: BoxHeader) -> Result<EditView, ErrorView> {
    if box_end(d, h) <= h.content_start() {
        Ok(EditView { list: None })
    } else {
        match spec_header(d, h.content_start()) {
            Err(e) => Err(e),
            Ok(ch) => if ch.name != BoxType::EditList {
                Err(ErrorView::InvalidBoxType)
            } else {
                match spec_elst(region(d, ch), ch) {
                    Err(e) => Err(e),
                    Ok(l) => if box_end(d, ch) > box_end(d, h) {
                        overrun()
                    } else if box_end(d, ch) < box_end(d, h) {
                        Err(ErrorView::InvalidBoxType)
                    } else {
                        Ok(EditView { list: Some(l) })
                    },
                }
            },
        }
    }
}

impl EditBox {
    /// Decodes the content of the box `header`; on failure the cursor is left where it
    /// was.
    pub fn read(reader: &mut BoxReader, header: BoxHeader) -> (r: Result<EditBox, Error>)
        requires
            at_content(old(reader), header),
        ensures
            final(reader).data == old(reader).data,
            r is Err ==> final(reader).pos == old(reader).pos,
            r is Ok ==> final(reader).pos == box_end(old(reader).data@, header),
            rv(r) == spec_edts(old(reader).data@, header),
    {
        let start = reader.pos;
        match Self::decode(reader, header) {
            Ok(b) => Ok(b),
            Err(e) => {
                reader.pos = start;
                Err(e)
            },
        }
    }

    fn decode(reader: &mut BoxReader, header: BoxHeader) -> (r: Result<EditBox, Error>)
        requires
            at_content(old(reader), header),
        ensures
            final(reader).data == old(reader).data,
            r is Ok ==> final(reader).pos == box_end(old(reader).data@, header),
            rv(r) == spec_edts(old(reader).data@, header),
    {
        let end = header.end_in(reader);
        if end <= reader.pos {
            reader.pos = end;
            return Ok(EditBox { list: None });
        }
        let ghost q = reader.pos as int;
        let child = BoxHeader::read(reader)?;
        proof {
            crate::header::lemma_header_wf(reader.data@, q);
        }
        if child.name != BoxType::EditList {
            return Err(Error::InvalidBoxType());
        }
        let mut sub = sub_reader(reader, child);
        let list = EditListBox::read(&mut sub, child)?;
        let child_end = child.end_in(reader);
        if child_end > end {
            return Err(Error::InvalidData("child box overruns its parent".to_owned()));
        }
        if child_end < end {
            return Err(Error::InvalidBoxType());
        }
        reader.pos = end;
        Ok(EditBox { list: Some(list) })
    }
}

/// What a sample description holds: the codec box is kept as its header only.
#[derive(Clone, Copy, Debug, PartialEq, Eq, Structural)]
pub enum VideoCodec {
    Unknown(BoxHeader),
}

/// Where a sample description that fails stops: at the start of the field that did not
/// fit, or right after the entry count when the count or the entry is wrong.
pub open spec fn stsd_stop(d: Seq<u8>, p: int) -> int {
    if p + 4 > d.len() {
        p
    } else if p + 8 > d.len() {
        p + 4
    } else {
        p + 8
    }
}

/// Sample description with exactly one entry.
#[derive(Clone, Copy, Debug, PartialEq, Eq, Structural)]
pub struct VideoSampleDescriptionBox {
    pub version: u8,
    pub flags: u32,
    pub codec: VideoCodec,
}

impl View for VideoSampleDescriptionBox {
    type V = VideoSampleDescriptionBox;

    open spec fn view(&self) -> VideoSampleDescriptionBox {
        *self
    }
}

pub open spec fn spec_stsd(d: Seq<u8>, h: BoxHeader) -> Result<
    VideoSampleDescriptionBox,
    ErrorView,
> {
    let p = h.content_start();
    if p + 8 > d.len() {
        eof()
    } else if be32(d, p + 4) != 1 {
        Err(ErrorView::InvalidData("Stsd: invalid entry_count"@))
    } else {
        match spec_header(d, p + 8) {
            Err(e) => Err(e),
            Ok(ch) => if box_end(d, ch) > box_end(d, h) {
                overrun()
            } else {
                Ok(
                    VideoSampleDescriptionBox {
                        version: d[p],
                        flags: be24(d, p + 1),
                        codec: VideoCodec::Unknown(ch),
                    },
                )
            },
        }
    }
}

impl VideoSampleDescriptionBox {
    pub fn read(reader: &mut BoxReader, header: BoxHeader) -> (r: Result<
        VideoSampleDescriptionBox,
        Error,
    >)
        requires
            at_content(old(reader), header),
        ensures
            final(reader).data == old(reader).data,
            r is Ok ==> final(reader).pos == box_end(old(reader).data@, header),
            r is Err ==> final(reader).pos == stsd_stop(old(reader).data@, old(reader).pos as int),
            rv(r) == spec_stsd(old(reader).data@, header),
    {
        let ghost d = reader.data@;
        let (version, flags) = reader.read_header_extra()?;
        let entry_count = reader.read_u32()?;
        if entry_count != 1 {
            return Err(Error::InvalidData("Stsd: invalid entry_count".to_owned()));
        }
        let here = reader.pos;
        let child = match BoxHeader::read(reader) {
            Ok(h) => h,
            Err(e) => {
                reader.pos = here;
                return Err(e);
            },
        };
        proof {
            crate::header::lemma_header_wf(d, here as int);
        }
        if child.end_in(reader) > header.end_in(reader) {
            reader.pos = here;
            return Err(Error::InvalidData("child box overruns its parent".to_owned()));
        }
        reader.pos = header.end_in(reader);
        Ok(VideoSampleDescriptionBox { version, flags, codec: VideoCodec::Unknown(child) })
    }
}

} // verus!
