use vstd::prelude::*;

use crate::header::BoxHeader;
use crate::leaf::{
    FtypBox, FtypView, HandlerBox, HandlerView, MediaDataBox, MediaHeaderBox, MediaHeaderView,
    MvhdBox, SkipBox, SoundInfoBox, TrackHeaderBox, VideoInfoBox, WideBox,
};
use crate::refs::{DataInfoBox, DataInfoView, EditBox, EditView, VideoSampleDescriptionBox};
use crate::tables::{
    ChunkOffset64Box, ChunkOffset64View, ChunkOffsetBox, ChunkOffsetView, CompositionOffsetBox,
    CompositionOffsetView, SampleSizeBox, SampleSizeView, SampleToChunkBox, SampleToChunkView,
    SyncSampleBox, SyncSampleView, TimeToSampleBox, TimeToSampleView,
};

verus! {

/// The decoded children of a container, in the order they are stored.
#[derive(Debug)]
pub struct ListBox {
    pub children: Vec<BoxElement>,
}

/// One child: its header and its decoded content.
#[derive(Debug)]
pub struct BoxElement {
    pub header: BoxHeader,
    pub content: BoxContent,
}

/// The decoded content of a box, one variant per registered kind that can stand as a
/// child of a generic container.
#[derive(Debug)]
pub enum BoxContent {
    Ftyp(FtypBox),
    Moov(MoovBox),
    Mvhd(MvhdBox),
    Trak(TrackBox),
    Mdat(MediaDataBox),
    Udta(UserDataBox),
    Wide(WideBox),
    Tkhd(TrackHeaderBox),
    Edts(EditBox),
    Mdia(MediaBox),
    Mdhd(MediaHeaderBox),
    Hdlr(HandlerBox),
    Minf(MediaInfoBox),
    Vmhd(VideoInfoBox),
    Smhd(SoundInfoBox),
    Dinf(DataInfoBox),
    Stbl(SampleTableBox),
    Stsd(VideoSampleDescriptionBox),
    Stts(TimeToSampleBox),
    Stsc(SampleToChunkBox),
    Stsz(SampleSizeBox),
    Stss(SyncSampleBox),
    Stco(ChunkOffsetBox),
    Co64(ChunkOffset64Box),
    Ctts(CompositionOffsetBox),
    Unknown(SkipBox),
}

/// Track: a generic container.
#[derive(Debug)]
pub struct TrackBox {
    pub header: BoxHeader,
    pub content: ListBox,
}

/// User data: a generic container.
#[derive(Debug)]
pub struct UserDataBox {
    pub header: BoxHeader,
    pub content: ListBox,
}

/// Media information: a generic container.
#[derive(Debug)]
pub struct MediaInfoBox {
    pub header: BoxHeader,
    pub content: ListBox,
}

/// Sample table: a generic container.
#[derive(Debug)]
pub struct SampleTableBox {
    pub header: BoxHeader,
    pub content: ListBox,
}

/// Movie: its (last) movie header and its tracks, in order.
#[derive(Debug)]
pub struct MoovBox {
    pub mvhd: MvhdBox,
    pub tracks: Vec<TrackBox>,
}

/// Media: its (last) media header, handler and media information.
#[derive(Debug)]
pub struct MediaBox {
    pub media_header: MediaHeaderBox,
    pub handler: Option<HandlerBox>,
    pub info: Option<MediaInfoBox>,
}

pub struct ElementView {
    pub header: BoxHeader,
    pub content: ContentView,
}

pub struct ContainerView {
    pub header: BoxHeader,
    pub children: Seq<ElementView>,
}

pub struct MoovView {
    pub mvhd: MvhdBox,
    pub tracks: Seq<ContainerView>,
}

pub struct MediaView {
    pub media_header: MediaHeaderView,
    pub handler: Option<HandlerView>,
    pub info: Option<ContainerView>,
}

pub enum ContentView {
    Ftyp(FtypView),
    Moov(MoovView),
    Mvhd(MvhdBox),
    Trak(ContainerView),
    Mdat(MediaDataBox),
    Udta(ContainerView),
    Wide(WideBox),
    Tkhd(TrackHeaderBox),
    Edts(EditView),
    Mdia(MediaView),
    Mdhd(MediaHeaderView),
    Hdlr(HandlerView),
    Minf(ContainerView),
    Vmhd(VideoInfoBox),
    Smhd(SoundInfoBox),
    Dinf(DataInfoView),
    Stbl(ContainerView),
    Stsd(VideoSampleDescriptionBox),
    Stts(TimeToSampleView),
    Stsc(SampleToChunkView),
    Stsz(SampleSizeView),
    Stss(SyncSampleView),
    Stco(ChunkOffsetView),
    Co64(ChunkOffset64View),
    Ctts(CompositionOffsetView),
    Unknown(SkipBox),
}

pub open spec fn element_view(e: BoxElement) -> ElementView
    decreases e,
{
    ElementView { header: e.header, content: content_view(e.content) }
}

pub open spec fn list_view(l: ListBox) -> Seq<ElementView>
    decreases l,
{
    Seq::new(
        l.children.len() as nat,
        |i: int|
            if 0 <= i < l.children.len() {
                element_view(l.children[i])
            } else {
                ElementView { header: l.children[0].header, content: ContentView::Unknown(SkipBox {  }) }
            },
    )
}

pub open spec fn content_view(c: BoxContent) -> ContentView
    decreases c,
{
    match c {
        BoxContent::Ftyp(b) => ContentView::Ftyp(b@),
        BoxContent::Moov(b) => ContentView::Moov(
            MoovView {
                mvhd: b.mvhd,
                tracks: Seq::new(
                    b.tracks.len() as nat,
                    |i: int|
                        if 0 <= i < b.tracks.len() {
                            ContainerView {
                                header: b.tracks[i].header,
                                children: list_view(b.tracks[i].content),
                            }
                        } else {
                            ContainerView { header: b.mvhd.header, children: Seq::empty() }
                        },
                ),
            },
        ),
        BoxContent::Mvhd(b) => ContentView::Mvhd(b),
        BoxContent::Trak(b) => ContentView::Trak(
            ContainerView { header: b.header, children: list_view(b.content) },
        ),
        BoxContent::Mdat(b) => ContentView::Mdat(b),
        BoxContent::Udta(b) => ContentView::Udta(
            ContainerView { header: b.header, children: list_view(b.content) },
        ),
        BoxContent::Wide(b) => ContentView::Wide(b),
        BoxContent::Tkhd(b) => ContentView::Tkhd(b),
        BoxContent::Edts(b) => ContentView::Edts(b@),
        BoxContent::Mdia(b) => ContentView::Mdia(
            MediaView {
                media_header: b.media_header@,
                handler: match b.handler {
                    Some(x) => Some(x@),
                    None => None,
                },
                info: match b.info {
                    Some(x) => Some(ContainerView { header: x.header, children: list_view(x.content) }),
                    None => None,
                },
            },
        ),
        BoxContent::Mdhd(b) => ContentView::Mdhd(b@),
        BoxContent::Hdlr(b) => ContentView::Hdlr(b@),
        BoxContent::Minf(b) => ContentView::Minf(
            ContainerView { header: b.header, children: list_view(b.content) },
        ),
        BoxContent::Vmhd(b) => ContentView::Vmhd(b),
        BoxContent::Smhd(b) => ContentView::Smhd(b),
        BoxContent::Dinf(b) => ContentView::Dinf(b@),
        BoxContent::Stbl(b) => ContentView::Stbl(
            ContainerView { header: b.header, children: list_view(b.content) },
        ),
        BoxContent::Stsd(b) => ContentView::Stsd(b),
        BoxContent::Stts(b) => ContentView::Stts(b@),
        BoxContent::Stsc(b) => ContentView::Stsc(b@),
        BoxContent::Stsz(b) => ContentView::Stsz(b@),
        BoxContent::Stss(b) => ContentView::Stss(b@),
        BoxContent::Stco(b) => ContentView::Stco(b@),
        BoxContent::Co64(b) => ContentView::Co64(b@),
        BoxContent::Ctts(b) => ContentView::Ctts(b@),
        BoxContent::Unknown(b) => ContentView::Unknown(b),
    }
}

impl View for BoxElement {
    type V = ElementView;

    open spec fn view(&self) -> ElementView {
        element_view(*self)
    }
}

impl View for BoxContent {
    type V = ContentView;

    open spec fn view(&self) -> ContentView {
        content_view(*self)
    }
}

impl View for ListBox {
    type V = Seq<ElementView>;

    open spec fn view(&self) -> Seq<ElementView> {
        list_view(*self)
    }
}

impl View for TrackBox {
    type V = ContainerView;

    open spec fn view(&self) -> ContainerView {
        ContainerView { header: self.header, children: list_view(self.content) }
    }
}

impl View for UserDataBox {
    type V = ContainerView;

    open spec fn view(&self) -> ContainerView {
        ContainerView { header: self.header, children: list_view(self.content) }
    }
}

impl View for MediaInfoBox {
    type V = ContainerView;

    open spec fn view(&self) -> ContainerView {
        ContainerView { header: self.header, children: list_view(self.content) }
    }
}

impl View for SampleTableBox {
    type V = ContainerView;

    open spec fn view(&self) -> ContainerView {
        ContainerView { header: self.header, children: list_view(self.content) }
    }
}

impl View for MoovBox {
    type V = MoovView;

    open spec fn view(&self) -> MoovView {
        MoovView { mvhd: self.mvhd, tracks: self.tracks@.map_values(|t: TrackBox| t@) }
    }
}

impl View for MediaBox {
    type V = MediaView;

    open spec fn view(&self) -> MediaView {
        MediaView {
            media_header: self.media_header@,
            handler: match self.handler {
                Some(x) => Some(x@),
                None => None,
            },
            info: match self.info {
                Some(x) => Some(x@),
                None => None,
            },
        }
    }
}

} // verus!
