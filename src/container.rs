use vstd::prelude::*;

use crate::error::{prepend, rv, Error, ErrorView};
use crate::header::{
    at_content, box_end, lemma_header_wf, region, spec_header, sub_reader, BoxHeader, BoxType,
};
use crate::leaf::{
    spec_ftyp, spec_hdlr, spec_mdhd, spec_mvhd, spec_smhd, spec_tkhd, spec_vmhd, FtypBox,
    HandlerBox, HandlerView, MediaDataBox, MediaHeaderBox, MediaHeaderView, MvhdBox, SkipBox,
    SoundInfoBox, TrackHeaderBox, VideoInfoBox, WideBox,
};
use crate::parser::BoxReader;
use crate::refs::{
    spec_dinf, spec_edts, spec_stsd, DataInfoBox, EditBox, VideoSampleDescriptionBox,
};
use crate::tables::{
    spec_co64, spec_ctts, spec_stco, spec_stsc, spec_stss, spec_stsz, spec_stts, ChunkOffset64Box,
    ChunkOffsetBox, CompositionOffsetBox, SampleSizeBox, SampleToChunkBox, SyncSampleBox,
    TimeToSampleBox,
};
use crate::tree::{
    content_view, BoxContent, BoxElement, ContainerView, ContentView, ElementView, ListBox, MediaBox, MediaInfoBox,
    MediaView, MoovBox, MoovView, SampleTableBox, TrackBox, UserDataBox,
};

verus! {

/// How many bytes of `d` lie at or after `p`.
pub open spec fn room(d: Seq<u8>, p: int) -> int {
    if p < d.len() {
        d.len() - p
    } else {
        0
    }
}

/// The declared content length of `h`, or `None` when it extends to the end of its region.
pub open spec fn content_size(h: BoxHeader) -> Option<int> {
    if h.size == 0 {
        None
    } else {
        Some(h.size - h.header_len)
    }
}

/// The most that the declared sizes of a container's children may add up to: its
/// declared content length, or the largest size when it extends to the end of its region.
pub open spec fn limit_of(cs: Option<int>) -> int {
    match cs {
        Some(n) => n,
        None => u64::MAX as int,
    }
}

/// One step of a container scan at `p`, after children of declared sizes summing to
/// `consumed`: `None` when the scan is over (the content is used up, or fewer bytes than
/// a header remain), else the next child's header. A child that would overrun its
/// parent's declared content is invalid data.
pub open spec fn spec_step(d: Seq<u8>, p: int, consumed: int, cs: Option<int>) -> Result<
    Option<BoxHeader>,
    ErrorView,
> {
    if cs matches Some(n) && consumed >= n {
        Ok(None)
    } else {
        match spec_header(d, p) {
            Err(ErrorView::Eof) => Ok(None),
            Err(e) => Err(e),
            Ok(h) => if h.size > limit_of(cs) - consumed {
                Err(ErrorView::InvalidData("child box overruns its parent"@))
            } else {
                Ok(Some(h))
            },
        }
    }
}

/// Whether boxes of kind `t` hold a sequence of child boxes.
pub open spec fn is_container(t: BoxType) -> bool {
    t == BoxType::Movie || t == BoxType::Track || t == BoxType::UserData || t == BoxType::Media
        || t == BoxType::MediaInfo || t == BoxType::SampleTable
}

/// The element whose header `h` was read from `d`: its content is decoded from the box's
/// own bytes.
pub open spec fn spec_element(d: Seq<u8>, h: BoxHeader) -> Result<ElementView, ErrorView>
    decreases room(d, h.start as int), 0nat,
{
    if !(h.wf() && h.content_start() <= d.len()) {
        Err(ErrorView::InternalError)
    } else {
        match spec_content(region(d, h), h) {
            Ok(c) => Ok(ElementView { header: h, content: c }),
            Err(e) => Err(e),
        }
    }
}

/// The content of the box `h`: the children of a container are scanned first, then the
/// record is assembled by kind.
pub open spec fn spec_content(d: Seq<u8>, h: BoxHeader) -> Result<ContentView, ErrorView>
    decreases room(d, h.content_start()), 3nat,
{
    decode_kind(
        d,
        h,
        if is_container(h.name) {
            spec_list(d, h)
        } else {
            Ok(Seq::empty())
        },
    )
}

/// The children scanned from `p` on, in order, or the first error met.
pub open spec fn spec_children(d: Seq<u8>, p: int, consumed: int, cs: Option<int>) -> Result<
    Seq<ElementView>,
    ErrorView,
>
    decreases room(d, p), 1nat,
{
    match spec_step(d, p, consumed, cs) {
        Err(e) => Err(e),
        Ok(None) => Ok(Seq::empty()),
        Ok(Some(h)) => match spec_element(d, h) {
            Err(e) => Err(e),
            Ok(el) => prepend(
                seq![el],
                spec_children(d, box_end(d, h), consumed + h.size, cs),
            ),
        },
    }
}

/// The children of the container `h`.
pub open spec fn spec_list(d: Seq<u8>, h: BoxHeader) -> Result<Seq<ElementView>, ErrorView>
    decreases room(d, h.content_start()), 2nat,
{
    spec_children(d, h.content_start(), 0, content_size(h))
}

/// A generic container holding `kids`.
pub open spec fn container_from(h: BoxHeader, kids: Result<Seq<ElementView>, ErrorView>) -> Result<
    ContainerView,
    ErrorView,
> {
    match kids {
        Err(e) => Err(e),
        Ok(children) => Ok(ContainerView { header: h, children }),
    }
}

pub open spec fn spec_container(d: Seq<u8>, h: BoxHeader) -> Result<ContainerView, ErrorView> {
    container_from(h, spec_list(d, h))
}

/// The last movie header among `s`.
pub open spec fn last_mvhd(s: Seq<ElementView>) -> Option<MvhdBox>
    decreases s.len(),
{
    if s.len() == 0 {
        None
    } else {
        match s.last().content {
            ContentView::Mvhd(b) => Some(b),
            _ => last_mvhd(s.drop_last()),
        }
    }
}

/// The tracks among `s`, in order.
pub open spec fn tracks_of(s: Seq<ElementView>) -> Seq<ContainerView>
    decreases s.len(),
{
    if s.len() == 0 {
        Seq::empty()
    } else {
        match s.last().content {
            ContentView::Trak(t) => tracks_of(s.drop_last()).push(t),
            _ => tracks_of(s.drop_last()),
        }
    }
}

pub open spec fn last_mdhd(s: Seq<ElementView>) -> Option<MediaHeaderView>
    decreases s.len(),
{
    if s.len() == 0 {
        None
    } else {
        match s.last().content {
            ContentView::Mdhd(b) => Some(b),
            _ => last_mdhd(s.drop_last()),
        }
    }
}

pub open spec fn last_hdlr(s: Seq<ElementView>) -> Option<HandlerView>
    decreases s.len(),
{
    if s.len() == 0 {
        None
    } else {
        match s.last().content {
            ContentView::Hdlr(b) => Some(b),
            _ => last_hdlr(s.drop_last()),
        }
    }
}

pub open spec fn last_minf(s: Seq<ElementView>) -> Option<ContainerView>
    decreases s.len(),
{
    if s.len() == 0 {
        None
    } else {
        match s.last().content {
            ContentView::Minf(b) => Some(b),
            _ => last_minf(s.drop_last()),
        }
    }
}

/// A movie needs a movie header (the last one counts) and at least one track.
pub open spec fn moov_from(kids: Result<Seq<ElementView>, ErrorView>) -> Result<MoovView, ErrorView> {
    match kids {
        Err(e) => Err(e),
        Ok(children) => match last_mvhd(children) {
            None => Err(ErrorView::BoxNotFound("Moov: Mvhd box is mandatory"@)),
            Some(mvhd) => if tracks_of(children).len() == 0 {
                Err(ErrorView::BoxNotFound("Moov: No track found"@))
            } else {
                Ok(MoovView { mvhd, tracks: tracks_of(children) })
            },
        },
    }
}

pub open spec fn spec_moov(d: Seq<u8>, h: BoxHeader) -> Result<MoovView, ErrorView> {
    moov_from(spec_list(d, h))
}

/// A media box needs a media header (the last one counts).
pub open spec fn mdia_from(kids: Result<Seq<ElementView>, ErrorView>) -> Result<MediaView, ErrorView> {
    match kids {
        Err(e) => Err(e),
        Ok(children) => match last_mdhd(children) {
            None => Err(ErrorView::BoxNotFound("Mdia: mdhd box is mandatory"@)),
            Some(media_header) => Ok(
                MediaView {
                    media_header,
                    handler: last_hdlr(children),
                    info: last_minf(children),
                },
            ),
        },
    }
}

pub open spec fn spec_mdia(d: Seq<u8>, h: BoxHeader) -> Result<MediaView, ErrorView> {
    mdia_from(spec_list(d, h))
}

/// Assembles the content of the box `h` by its kind, from its bytes `d` and, for a
/// container, its scanned children `kids`; unregistered kinds are skipped.
#[verifier::opaque]
pub open spec fn decode_kind(d: Seq<u8>, h: BoxHeader, kids: Result<Seq<ElementView>, ErrorView>) -> Result<
    ContentView,
    ErrorView,
> {
    match h.name {
        BoxType::FileType => match spec_ftyp(d, h) {
            Ok(v) => Ok(ContentView::Ftyp(v)),
            Err(e) => Err(e),
        },
        BoxType::Movie => match moov_from(kids) {
            Ok(v) => Ok(ContentView::Moov(v)),
            Err(e) => Err(e),
        },
        BoxType::MovieHeader => match spec_mvhd(d, h) {
            Ok(v) => Ok(ContentView::Mvhd(v)),
            Err(e) => Err(e),
        },
        BoxType::Track => match container_from(h, kids) {
            Ok(v) => Ok(ContentView::Trak(v)),
            Err(e) => Err(e),
        },
        BoxType::MediaData => Ok(ContentView::Mdat(MediaDataBox {  })),
        BoxType::UserData => match container_from(h, kids) {
            Ok(v) => Ok(ContentView::Udta(v)),
            Err(e) => Err(e),
        },
        BoxType::Wide => Ok(ContentView::Wide(WideBox { header: h })),
        BoxType::TrackHeader => match spec_tkhd(d, h) {
            Ok(v) => Ok(ContentView::Tkhd(v)),
            Err(e) => Err(e),
        },
        BoxType::Edit => match spec_edts(d, h) {
            Ok(v) => Ok(ContentView::Edts(v)),
            Err(e) => Err(e),
        },
        BoxType::Media => match mdia_from(kids) {
            Ok(v) => Ok(ContentView::Mdia(v)),
            Err(e) => Err(e),
        },
        BoxType::MediaHeader => match spec_mdhd(d, h) {
            Ok(v) => Ok(ContentView::Mdhd(v)),
            Err(e) => Err(e),
        },
        BoxType::Handler => match spec_hdlr(d, h) {
            Ok(v) => Ok(ContentView::Hdlr(v)),
            Err(e) => Err(e),
        },
        BoxType::MediaInfo => match container_from(h, kids) {
            Ok(v) => Ok(ContentView::Minf(v)),
            Err(e) => Err(e),
        },
        BoxType::VideoInfo => match spec_vmhd(d, h) {
            Ok(v) => Ok(ContentView::Vmhd(v)),
            Err(e) => Err(e),
        },
        BoxType::SoundInfo => match spec_smhd(d, h) {
            Ok(v) => Ok(ContentView::Smhd(v)),
            Err(e) => Err(e),
        },
        BoxType::DataInfo => match spec_dinf(d, h) {
            Ok(v) => Ok(ContentView::Dinf(v)),
            Err(e) => Err(e),
        },
        BoxType::SampleTable => match container_from(h, kids) {
            Ok(v) => Ok(ContentView::Stbl(v)),
            Err(e) => Err(e),
        },
        BoxType::VideoSampleDescription => match spec_stsd(d, h) {
            Ok(v) => Ok(ContentView::Stsd(v)),
            Err(e) => Err(e),
        },
        BoxType::TimeToSample => match spec_stts(d, h) {
            Ok(v) => Ok(ContentView::Stts(v)),
            Err(e) => Err(e),
        },
        BoxType::SampleToChunk => match spec_stsc(d, h) {
            Ok(v) => Ok(ContentView::Stsc(v)),
            Err(e) => Err(e),
        },
        BoxType::SampleSize => match spec_stsz(d, h) {
            Ok(v) => Ok(ContentView::Stsz(v)),
            Err(e) => Err(e),
        },
        BoxType::SyncSample => match spec_stss(d, h) {
            Ok(v) => Ok(ContentView::Stss(v)),
            Err(e) => Err(e),
        },
        BoxType::ChunkOffset => match spec_stco(d, h) {
            Ok(v) => Ok(ContentView::Stco(v)),
            Err(e) => Err(e),
        },
        BoxType::ChunkOffset64 => match spec_co64(d, h) {
            Ok(v) => Ok(ContentView::Co64(v)),
            Err(e) => Err(e),
        },
        BoxType::CompositionOffset => match spec_ctts(d, h) {
            Ok(v) => Ok(ContentView::Ctts(v)),
            Err(e) => Err(e),
        },
        _ => Ok(ContentView::Unknown(SkipBox {  })),
    }
}

/// A forward-only cursor over the children of one container. It holds only the declared
/// sizes of the children yielded so far and the declared content length (`None`: the
/// container extends to the end of its region); the byte cursor is handed to each call.
#[derive(Clone, Copy, Debug)]
pub struct ListBoxIterator {
    pub content_parsed_size: u64,
    pub content_size: Option<u64>,
}

impl ListBoxIterator {
    pub open spec fn wf(&self) -> bool {
        self.content_size matches Some(n) ==> self.content_parsed_size <= n
    }

    pub open spec fn bound(&self) -> Option<int> {
        match self.content_size {
            Some(n) => Some(n as int),
            None => None,
        }
    }

    /// Yields the next child, decoded whole, and leaves the byte cursor at its end; `None`
    /// once the content is used up or fewer bytes than a header remain.
    pub fn next(&mut self, reader: &mut BoxReader) -> (r: Result<Option<BoxElement>, Error>)
        requires
            old(self).wf(),
        ensures
            final(reader).data == old(reader).data,
            final(self).wf(),
            final(self).content_size == old(self).content_size,
            ({
                let d = old(reader).data@;
                let p = old(reader).pos as int;
                let c = old(self).content_parsed_size as int;
                let cs = old(self).bound();
                match r {
                    Err(e) => spec_children(d, p, c, cs) == Err::<Seq<ElementView>, ErrorView>(e@),
                    Ok(None) => {
                        &&& spec_children(d, p, c, cs) == Ok::<Seq<ElementView>, ErrorView>(
                            Seq::empty(),
                        )
                        &&& final(reader).pos == old(reader).pos
                        &&& *final(self) == *old(self)
                    },
                    Ok(Some(el)) => {
                        &&& spec_step(d, p, c, cs) == Ok::<Option<BoxHeader>, ErrorView>(
                            Some(el.header),
                        )
                        &&& spec_element(d, el.header) == Ok::<ElementView, ErrorView>(el@)
                        &&& final(reader).pos == box_end(d, el.header)
                        &&& final(self).content_parsed_size == c + el.header.size
                        &&& p + 8 <= d.len()
                        &&& final(reader).pos >= p + 8
                        &&& spec_children(d, p, c, cs) == prepend(
                            seq![el@],
                            spec_children(
                                d,
                                final(reader).pos as int,
                                final(self).content_parsed_size as int,
                                cs,
                            ),
                        )
                    },
                }
            }),
        decreases room(reader.data@, reader.pos as int), 1nat,
    {
        if let Some(n) = self.content_size {
            if self.content_parsed_size >= n {
                return Ok(None);
            }
        }
        let ghost d = reader.data@;
        let ghost p = reader.pos as int;
        let here = reader.pos;
        let child = match BoxHeader::read(reader) {
            Ok(h) => h,
            Err(e) => {
                if e.is_eof() {
                    reader.pos = here;
                    return Ok(None);
                }
                return Err(e);
            },
        };
        proof {
            lemma_header_wf(d, p);
        }
        let limit = match self.content_size {
            Some(n) => n,
            None => u64::MAX,
        };
        if child.size > limit - self.content_parsed_size {
            return Err(Error::InvalidData("child box overruns its parent".to_owned()));
        }
        let element = BoxElement::read(reader, child)?;
        self.content_parsed_size = self.content_parsed_size + child.size;
        Ok(Some(element))
    }
}

impl ListBox {
    /// A cursor over the children of the container `header`.
    pub fn iter(header: BoxHeader) -> (r: ListBoxIterator)
        requires
            header.wf(),
        ensures
            r.wf(),
            r.content_parsed_size == 0,
            r.bound() == content_size(header),
    {
        ListBoxIterator {
            content_parsed_size: 0,
            content_size: if header.size == 0 {
                None
            } else {
                Some(header.size - header.header_len)
            },
        }
    }

    /// Decodes every child of the container `header`.
    pub fn read(reader: &mut BoxReader, header: BoxHeader) -> (r: Result<ListBox, Error>)
        requires
            at_content(old(reader), header),
        ensures
            final(reader).data == old(reader).data,
            r is Err ==> final(reader).pos == old(reader).pos,
            r is Ok ==> final(reader).pos == box_end(old(reader).data@, header),
            rv(r) == spec_list(old(reader).data@, header),
        decreases room(reader.data@, header.content_start()), 2nat,
    {
        let ghost d = reader.data@;
        let start = reader.pos;
        let mut children: Vec<BoxElement> = Vec::new();
        let mut iter = ListBox::iter(header);
        loop
            invariant_except_break
                iter.wf(),
                iter.bound() == content_size(header),
                reader.pos >= header.content_start(),
                spec_list(d, header) == prepend(
                    children@.map_values(|e: BoxElement| e@),
                    spec_children(d, reader.pos as int, iter.content_parsed_size as int, iter.bound()),
                ),
            invariant
                reader.data == old(reader).data,
                d == reader.data@,
                start == old(reader).pos,
            ensures
                spec_list(d, header) == Ok::<Seq<ElementView>, ErrorView>(
                    children@.map_values(|e: BoxElement| e@),
                ),
            decreases room(d, reader.pos as int),
        {
            let ghost before = children@.map_values(|e: BoxElement| e@);
            let step = match iter.next(reader) {
                Ok(step) => step,
                Err(e) => {
                    reader.pos = start;
                    return Err(e);
                },
            };
            match step {
                None => {
                    assert(before + Seq::empty() =~= before);
                    break;
                },
                Some(child) => {
                    children.push(child);
                    proof {
                        assert(children@.map_values(|e: BoxElement| e@) =~= before + seq![child@]);
                        match spec_children(d, reader.pos as int, iter.content_parsed_size as int, iter.bound()) {
                            Ok(t) => {
                                assert(before + (seq![child@] + t) =~= (before + seq![child@]) + t);
                            },
                            Err(_) => {},
                        }
                    }
                },
            }
        }
        let list = ListBox { children };
        assert(list@ =~= list.children@.map_values(|e: BoxElement| e@));
        reader.pos = header.end_in(reader);
        Ok(list)
    }
}

impl BoxElement {
    /// Decodes the content of the box whose header was just read, from the box's own
    /// bytes, and leaves the cursor at the box's end.
    pub fn read(reader: &mut BoxReader, header: BoxHeader) -> (r: Result<BoxElement, Error>)
        requires
            header.wf(),
            old(reader).pos == header.content_start(),
            header.content_start() <= old(reader).data@.len(),
        ensures
            final(reader).data == old(reader).data,
            r is Err ==> final(reader).pos == old(reader).pos,
            rv(r) == spec_element(old(reader).data@, header),
            r is Ok ==> final(reader).pos == box_end(old(reader).data@, header),
        decreases room(reader.data@, header.start as int), 0nat,
    {
        let end = header.end_in(reader);
        let mut sub = sub_reader(reader, header);
        let content = BoxContent::read(&mut sub, header)?;
        reader.pos = end;
        Ok(BoxElement { header, content })
    }
}

impl BoxContent {
    /// Decodes the content of the box `header` by its kind.
    pub fn read(reader: &mut BoxReader, header: BoxHeader) -> (r: Result<BoxContent, Error>)
        requires
            at_content(old(reader), header),
        ensures
            final(reader).data == old(reader).data,
            r is Err ==> final(reader).pos == old(reader).pos,
            r is Ok ==> final(reader).pos == box_end(old(reader).data@, header),
            rv(r) == spec_content(old(reader).data@, header),
        decreases room(reader.data@, header.content_start()), 6nat,
    {
        let start = reader.pos;
        let result = match header.name {
            BoxType::Movie => Self::read_movie(reader, header),
            BoxType::Media => Self::read_media(reader, header),
            BoxType::Track | BoxType::UserData | BoxType::MediaInfo | BoxType::SampleTable => {
                Self::read_composite(reader, header)
            },
            BoxType::FileType | BoxType::MovieHeader | BoxType::MediaData | BoxType::Wide
            | BoxType::TrackHeader | BoxType::Edit | BoxType::MediaHeader | BoxType::Handler
            | BoxType::VideoInfo | BoxType::SoundInfo => Self::read_headers(reader, header),
            _ => Self::read_tables(reader, header),
        };
        match result {
            Ok(c) => Ok(c),
            Err(e) => {
                reader.pos = start;
                Err(e)
            },
        }
    }

    fn read_movie(reader: &mut BoxReader, header: BoxHeader) -> (r: Result<BoxContent, Error>)
        requires
            at_content(old(reader), header),
            header.name == BoxType::Movie,
        ensures
            final(reader).data == old(reader).data,
            r is Ok ==> final(reader).pos == box_end(old(reader).data@, header),
            rv(r) == spec_content(old(reader).data@, header),
        decreases room(reader.data@, header.content_start()), 5nat,
    {
        proof {
            reveal(decode_kind);
        }
        let b = MoovBox::read(reader, header)?;
        proof {
            let tracks = content_view(BoxContent::Moov(b))->Moov_0.tracks;
            assert(tracks =~= b@.tracks);
            assert(content_view(BoxContent::Moov(b)) == ContentView::Moov(b@));
        }
        Ok(BoxContent::Moov(b))
    }

    fn read_media(reader: &mut BoxReader, header: BoxHeader) -> (r: Result<BoxContent, Error>)
        requires
            at_content(old(reader), header),
            header.name == BoxType::Media,
        ensures
            final(reader).data == old(reader).data,
            r is Ok ==> final(reader).pos == box_end(old(reader).data@, header),
            rv(r) == spec_content(old(reader).data@, header),
        decreases room(reader.data@, header.content_start()), 5nat,
    {
        proof {
            reveal(decode_kind);
        }
        let b = MediaBox::read(reader, header)?;
        Ok(BoxContent::Mdia(b))
    }

    /// Decodes a container kind: its children are scanned first.
    #[verifier::spinoff_prover]
    #[verifier::rlimit(60)]
    fn read_composite(reader: &mut BoxReader, header: BoxHeader) -> (r: Result<BoxContent, Error>)
        requires
            at_content(old(reader), header),
            header.name == BoxType::Track || header.name == BoxType::UserData || header.name
                == BoxType::MediaInfo || header.name == BoxType::SampleTable,
        ensures
            final(reader).data == old(reader).data,
            r is Ok ==> final(reader).pos == box_end(old(reader).data@, header),
            rv(r) == spec_content(old(reader).data@, header),
        decreases room(reader.data@, header.content_start()), 5nat,
    {
        reveal(decode_kind);
        let result = match header.name {
            BoxType::Track => BoxContent::Trak(TrackBox::read(reader, header)?),
            BoxType::UserData => BoxContent::Udta(UserDataBox::read(reader, header)?),
            BoxType::MediaInfo => BoxContent::Minf(MediaInfoBox::read(reader, header)?),
            BoxType::SampleTable => BoxContent::Stbl(SampleTableBox::read(reader, header)?),
            _ => {
                return Err(Error::InternalError());
            },
        };
        Ok(result)
    }

    /// Decodes a fixed-layout or skipped kind.
    fn read_headers(reader: &mut BoxReader, header: BoxHeader) -> (r: Result<BoxContent, Error>)
        requires
            at_content(old(reader), header),
            header.name == BoxType::FileType || header.name == BoxType::MovieHeader || header.name == BoxType::MediaData || header.name == BoxType::Wide || header.name == BoxType::TrackHeader || header.name == BoxType::Edit || header.name == BoxType::MediaHeader || header.name == BoxType::Handler || header.name == BoxType::VideoInfo || header.name == BoxType::SoundInfo,
        ensures
            final(reader).data == old(reader).data,
            r is Ok ==> final(reader).pos == box_end(old(reader).data@, header),
            rv(r) == spec_content(old(reader).data@, header),
    {
        reveal(decode_kind);
        let result = match header.name {
            BoxType::FileType => BoxContent::Ftyp(FtypBox::read(reader, header)?),
            BoxType::MovieHeader => BoxContent::Mvhd(MvhdBox::read(reader, header)?),
            BoxType::MediaData => BoxContent::Mdat(MediaDataBox::read(reader, header)?),
            BoxType::Wide => BoxContent::Wide(WideBox::read(reader, header)?),
            BoxType::TrackHeader => BoxContent::Tkhd(TrackHeaderBox::read(reader, header)?),
            BoxType::Edit => BoxContent::Edts(EditBox::read(reader, header)?),
            BoxType::MediaHeader => BoxContent::Mdhd(MediaHeaderBox::read(reader, header)?),
            BoxType::Handler => BoxContent::Hdlr(HandlerBox::read(reader, header)?),
            BoxType::VideoInfo => BoxContent::Vmhd(VideoInfoBox::read(reader, header)?),
            BoxType::SoundInfo => BoxContent::Smhd(SoundInfoBox::read(reader, header)?),
            _ => {
                return Err(Error::InternalError());
            },
        };
        Ok(result)
    }

    /// Decodes a table kind, a sample description or data information; other kinds are skipped.
    #[verifier::spinoff_prover]
    #[verifier::rlimit(60)]
    fn read_tables(reader: &mut BoxReader, header: BoxHeader) -> (r: Result<BoxContent, Error>)
        requires
            at_content(old(reader), header),
            !is_container(header.name),
            !(header.name is FileType || header.name is MovieHeader || header.name is MediaData
                || header.name is Wide || header.name is TrackHeader || header.name is Edit
                || header.name is MediaHeader || header.name is Handler || header.name is VideoInfo
                || header.name is SoundInfo),
        ensures
            final(reader).data == old(reader).data,
            r is Ok ==> final(reader).pos == box_end(old(reader).data@, header),
            rv(r) == spec_content(old(reader).data@, header),
    {
        reveal(decode_kind);
        let result = match header.name {
            BoxType::DataInfo => BoxContent::Dinf(DataInfoBox::read(reader, header)?),
            BoxType::VideoSampleDescription => BoxContent::Stsd(VideoSampleDescriptionBox::read(reader, header)?),
            BoxType::TimeToSample => BoxContent::Stts(TimeToSampleBox::read(reader, header)?),
            BoxType::SampleToChunk => BoxContent::Stsc(SampleToChunkBox::read(reader, header)?),
            BoxType::SampleSize => BoxContent::Stsz(SampleSizeBox::read(reader, header)?),
            BoxType::SyncSample => BoxContent::Stss(SyncSampleBox::read(reader, header)?),
            BoxType::ChunkOffset => BoxContent::Stco(ChunkOffsetBox::read(reader, header)?),
            BoxType::ChunkOffset64 => BoxContent::Co64(ChunkOffset64Box::read(reader, header)?),
            BoxType::CompositionOffset => BoxContent::Ctts(CompositionOffsetBox::read(reader, header)?),
            _ => BoxContent::Unknown(SkipBox::read(reader, header)?),
        };
        Ok(result)
    }

}

impl TrackBox {
    pub fn read(reader: &mut BoxReader, header: BoxHeader) -> (r: Result<TrackBox, Error>)
        requires
            at_content(old(reader), header),
        ensures
            final(reader).data == old(reader).data,
            r is Err ==> final(reader).pos == old(reader).pos,
            r is Ok ==> final(reader).pos == box_end(old(reader).data@, header),
            rv(r) == spec_container(old(reader).data@, header),
        decreases room(reader.data@, header.content_start()), 4nat,
    {
        let content = ListBox::read(reader, header)?;
        Ok(TrackBox { header, content })
    }
}

impl UserDataBox {
    pub fn read(reader: &mut BoxReader, header: BoxHeader) -> (r: Result<UserDataBox, Error>)
        requires
            at_content(old(reader), header),
        ensures
            final(reader).data == old(reader).data,
            r is Err ==> final(reader).pos == old(reader).pos,
            r is Ok ==> final(reader).pos == box_end(old(reader).data@, header),
            rv(r) == spec_container(old(reader).data@, header),
        decreases room(reader.data@, header.content_start()), 4nat,
    {
        let content = ListBox::read(reader, header)?;
        Ok(UserDataBox { header, content })
    }
}

impl MediaInfoBox {
    pub fn read(reader: &mut BoxReader, header: BoxHeader) -> (r: Result<MediaInfoBox, Error>)
        requires
            at_content(old(reader), header),
        ensures
            final(reader).data == old(reader).data,
            r is Err ==> final(reader).pos == old(reader).pos,
            r is Ok ==> final(reader).pos == box_end(old(reader).data@, header),
            rv(r) == spec_container(old(reader).data@, header),
        decreases room(reader.data@, header.content_start()), 4nat,
    {
        let content = ListBox::read(reader, header)?;
        Ok(MediaInfoBox { header, content })
    }
}

impl SampleTableBox {
    pub fn read(reader: &mut BoxReader, header: BoxHeader) -> (r: Result<SampleTableBox, Error>)
        requires
            at_content(old(reader), header),
        ensures
            final(reader).data == old(reader).data,
            r is Err ==> final(reader).pos == old(reader).pos,
            r is Ok ==> final(reader).pos == box_end(old(reader).data@, header),
            rv(r) == spec_container(old(reader).data@, header),
        decreases room(reader.data@, header.content_start()), 4nat,
    {
        let content = ListBox::read(reader, header)?;
        Ok(SampleTableBox { header, content })
    }
}

/// Taking the first of the children still to be sorted: it is the next element of `all`,
/// and the ones after it still match the rest of `all`.
proof fn lemma_take_next(rest: Seq<BoxElement>, all: Seq<ElementView>, i: int, n: int)
    requires
        0 <= i <= n,
        all.len() == n,
        rest.len() > 0,
        rest.map_values(|e: BoxElement| e@) == all.subrange(i, n),
    ensures
        i < n,
        rest[0]@ == all[i],
        all.take(i + 1).drop_last() =~= all.take(i),
        all.take(i + 1).last() == all[i],
        rest.subrange(1, rest.len() as int).map_values(|e: BoxElement| e@) =~= all.subrange(
            i + 1,
            n,
        ),
{
    assert(rest.map_values(|e: BoxElement| e@).len() == rest.len());
    assert(all.subrange(i, n).len() == n - i);
    assert(rest.map_values(|e: BoxElement| e@)[0] == rest[0]@);
    assert(all.subrange(i, n)[0] == all[i]);
    let tail = rest.subrange(1, rest.len() as int);
    assert forall|j: int| 0 <= j < tail.len() implies #[trigger] tail[j]@ == all.subrange(
        i + 1,
        n,
    )[j] by {
        assert(tail[j] == rest[j + 1]);
        assert(rest.map_values(|e: BoxElement| e@)[j + 1] == rest[j + 1]@);
        assert(all.subrange(i, n)[j + 1] == all.subrange(i + 1, n)[j]);
    }
}

impl MoovBox {
    /// Decodes a movie: the last movie header counts, and at least one track is required.
    pub fn read(reader: &mut BoxReader, header: BoxHeader) -> (r: Result<MoovBox, Error>)
        requires
            at_content(old(reader), header),
        ensures
            final(reader).data == old(reader).data,
            r is Err ==> final(reader).pos == old(reader).pos,
            r is Ok ==> final(reader).pos == box_end(old(reader).data@, header),
            rv(r) == spec_moov(old(reader).data@, header),
        decreases room(reader.data@, header.content_start()), 4nat,
    {
        let start = reader.pos;
        let list = ListBox::read(reader, header)?;
        let ghost all = list@;
        let mut children = list.children;
        assert(children@.map_values(|e: BoxElement| e@) =~= all);
        let ghost n = all.len();
        let ghost mut i: int = 0;
        let mut mvhd: Option<MvhdBox> = None;
        let mut tracks: Vec<TrackBox> = Vec::new();
        while children.len() > 0
            invariant
                reader.data == old(reader).data,
                start == old(reader).pos,
                0 <= i <= n,
                all.len() == n,
                children@.map_values(|e: BoxElement| e@) == all.subrange(i, n as int),
                mvhd == last_mvhd(all.take(i)),
                tracks@.map_values(|t: TrackBox| t@) == tracks_of(all.take(i)),
            decreases children.len(),
        {
            let ghost rest = children@;
            let child = children.remove(0);
            proof {
                lemma_take_next(rest, all, i, n as int);
                assert(children@ =~= rest.subrange(1, rest.len() as int));
            }
            let ghost before = tracks@.map_values(|t: TrackBox| t@);
            match child.content {
                BoxContent::Mvhd(b) => {
                    assert(child@.content == ContentView::Mvhd(b));
                    mvhd = Some(b);
                },
                BoxContent::Trak(t) => {
                    assert(child@.content == ContentView::Trak(t@));
                    tracks.push(t);
                    assert(tracks@.map_values(|t: TrackBox| t@) =~= before.push(t@));
                },
                _ => {
                    assert(!(child@.content is Mvhd) && !(child@.content is Trak));
                },
            }
            proof {
                i = i + 1;
            }
        }
        assert(all.take(n as int) =~= all);
        let mvhd = match mvhd {
            Some(m) => m,
            None => {
                reader.pos = start;
                return Err(Error::BoxNotFound("Moov: Mvhd box is mandatory".to_owned()));
            },
        };
        if tracks.len() == 0 {
            reader.pos = start;
            return Err(Error::BoxNotFound("Moov: No track found".to_owned()));
        }
        reader.pos = header.end_in(reader);
        Ok(MoovBox { mvhd, tracks })
    }
}

impl MediaBox {
    /// Decodes a media box: the last media header counts and is required.
    pub fn read(reader: &mut BoxReader, header: BoxHeader) -> (r: Result<MediaBox, Error>)
        requires
            at_content(old(reader), header),
        ensures
            final(reader).data == old(reader).data,
            r is Err ==> final(reader).pos == old(reader).pos,
            r is Ok ==> final(reader).pos == box_end(old(reader).data@, header),
            rv(r) == spec_mdia(old(reader).data@, header),
        decreases room(reader.data@, header.content_start()), 4nat,
    {
        let start = reader.pos;
        let list = ListBox::read(reader, header)?;
        let ghost all = list@;
        let mut children = list.children;
        assert(children@.map_values(|e: BoxElement| e@) =~= all);
        let ghost n = all.len();
        let ghost mut i: int = 0;
        let mut media_header: Option<MediaHeaderBox> = None;
        let mut handler: Option<HandlerBox> = None;
        let mut info: Option<MediaInfoBox> = None;
        while children.len() > 0
            invariant
                reader.data == old(reader).data,
                start == old(reader).pos,
                0 <= i <= n,
                all.len() == n,
                children@.map_values(|e: BoxElement| e@) == all.subrange(i, n as int),
                last_mdhd(all.take(i)) == match media_header {
                    Some(x) => Some(x@),
                    None => None,
                },
                last_hdlr(all.take(i)) == match handler {
                    Some(x) => Some(x@),
                    None => None,
                },
                last_minf(all.take(i)) == match info {
                    Some(x) => Some(x@),
                    None => None,
                },
            decreases children.len(),
        {
            let ghost rest = children@;
            let child = children.remove(0);
            proof {
                lemma_take_next(rest, all, i, n as int);
                assert(children@ =~= rest.subrange(1, rest.len() as int));
            }
            match child.content {
                BoxContent::Mdhd(b) => {
                    assert(child@.content == ContentView::Mdhd(b@));
                    media_header = Some(b);
                },
                BoxContent::Hdlr(b) => {
                    assert(child@.content == ContentView::Hdlr(b@));
                    handler = Some(b);
                },
                BoxContent::Minf(b) => {
                    assert(child@.content == ContentView::Minf(b@));
                    info = Some(b);
                },
                _ => {
                    assert(!(child@.content is Mdhd) && !(child@.content is Hdlr) && !(
                    child@.content is Minf));
                },
            }
            proof {
                i = i + 1;
            }
        }
        assert(all.take(n as int) =~= all);
        let media_header = match media_header {
            Some(m) => m,
            None => {
                reader.pos = start;
                return Err(Error::BoxNotFound("Mdia: mdhd box is mandatory".to_owned()));
            },
        };
        reader.pos = header.end_in(reader);
        Ok(MediaBox { media_header, handler, info })
    }
}

/// The sum of the declared sizes of the elements of `s`.
pub open spec fn declared_total(s: Seq<ElementView>) -> int
    decreases s.len(),
{
    if s.len() == 0 {
        0
    } else {
        s[0].header.size + declared_total(s.drop_first())
    }
}

/// A bounded scan never accepts children that claim more than the bound: the sizes
/// consumed before the scan plus the sizes of the children it yields stay within `n`.
pub proof fn lemma_children_fit(d: Seq<u8>, p: int, consumed: int, n: int)
    requires
        0 <= p,
        d.len() <= u64::MAX,
        consumed <= n,
        spec_children(d, p, consumed, Some(n)) is Ok,
    ensures
        consumed + declared_total(spec_children(d, p, consumed, Some(n))->Ok_0) <= n,
    decreases room(d, p),
{
    if let Ok(Some(h)) = spec_step(d, p, consumed, Some(n)) {
        lemma_header_wf(d, p);
        let next = box_end(d, h);
        lemma_children_fit(d, next, consumed + h.size, n);
        let kids = spec_children(d, p, consumed, Some(n))->Ok_0;
        let rest = spec_children(d, next, consumed + h.size, Some(n))->Ok_0;
        let el = spec_element(d, h)->Ok_0;
        assert(el.header == h);
        assert(kids == seq![el] + rest);
        assert(kids[0] == el);
        assert(kids.drop_first() =~= rest);
    }
}

/// For any input that decodes, the children of a container with a declared size claim,
/// together, no more than its declared content length.
pub proof fn lemma_container_children_fit(d: Seq<u8>, h: BoxHeader)
    requires
        h.wf(),
        h.size != 0,
        d.len() <= u64::MAX,
        spec_list(d, h) is Ok,
    ensures
        declared_total(spec_list(d, h)->Ok_0) <= h.size - h.header_len,
{
    lemma_children_fit(d, h.content_start(), 0, h.size - h.header_len);
}

/// Decoding is a function of the bytes: decoding one box twice from the same offset
/// gives structurally equal results.
pub proof fn lemma_decode_idempotent(
    d: Seq<u8>,
    h: BoxHeader,
    first: Result<BoxElement, Error>,
    second: Result<BoxElement, Error>,
)
    requires
        rv(first) == spec_element(d, h),
        rv(second) == spec_element(d, h),
    ensures
        rv(first) == rv(second),
{
}

/// An unknown child is skipped whole: it stands as an opaque element, and the scan goes
/// on at its declared end, so the children after it are read where they start.
pub proof fn lemma_unknown_child_skipped(d: Seq<u8>, p: int, consumed: int, cs: Option<int>)
    requires
        0 <= p <= u64::MAX,
        spec_step(d, p, consumed, cs) is Ok,
        spec_step(d, p, consumed, cs)->Ok_0 is Some,
        spec_step(d, p, consumed, cs)->Ok_0->Some_0.name is Unknown,
    ensures
        ({
            let h = spec_step(d, p, consumed, cs)->Ok_0->Some_0;
            &&& spec_children(d, p, consumed, cs) == prepend(
                seq![ElementView { header: h, content: ContentView::Unknown(SkipBox {  }) }],
                spec_children(d, box_end(d, h), consumed + h.size, cs),
            )
            &&& h.size != 0 ==> box_end(d, h) == p + h.size
        }),
{
    let h = spec_step(d, p, consumed, cs)->Ok_0->Some_0;
    lemma_header_wf(d, p);
    reveal(decode_kind);
    assert(!is_container(h.name));
    assert(spec_content(region(d, h), h) == decode_kind(region(d, h), h, Ok(Seq::empty())));
    assert(decode_kind(region(d, h), h, Ok(Seq::empty())) == Ok::<ContentView, ErrorView>(
        ContentView::Unknown(SkipBox {  }),
    ));
    assert(spec_element(d, h) == Ok::<ElementView, ErrorView>(
        ElementView { header: h, content: ContentView::Unknown(SkipBox {  }) },
    ));
}

} // verus!
