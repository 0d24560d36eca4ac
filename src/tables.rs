use vstd::prelude::*;

use crate::error::{eof, rv, Error, ErrorView};
use crate::header::{at_content, box_end, BoxHeader};
use crate::parser::{be16, be24, be32, be64, BoxReader};

verus! {

/// Reads `count` 32-bit values that are known to fit at the cursor.
fn read_u32_entries(reader: &mut BoxReader, count: u32) -> (r: Result<Vec<u32>, Error>)
    requires
        old(reader).fits(4 * count),
    ensures
        final(reader).data == old(reader).data,
        r matches Ok(v) && v@ == Seq::new(
            count as nat,
            |i: int| be32(old(reader).data@, old(reader).pos + 4 * i),
        ),
{
    let ghost d = reader.data@;
    let ghost p = reader.pos as int;
    let mut table: Vec<u32> = Vec::new();
    let mut i: u32 = 0;
    while i < count
        invariant
            reader.data == old(reader).data,
            d == reader.data@,
            p == old(reader).pos,
            p + 4 * count <= d.len(),
            i <= count,
            reader.pos == p + 4 * i,
            table@.len() == i,
            forall|j: int| 0 <= j < i ==> table@[j] == be32(d, p + 4 * j),
        decreases count - i,
    {
        let v = reader.read_u32()?;
        table.push(v);
        i = i + 1;
    }
    assert(table@ =~= Seq::new(count as nat, |i: int| be32(d, p + 4 * i)));
    Ok(table)
}

/// Time-to-sample table: (sample count, sample duration) runs.
#[derive(Clone, Debug)]
pub struct TimeToSampleBox {
    pub version: u8,
    pub flags: u32,
    pub table: Vec<(u32, u32)>,
}

pub struct TimeToSampleView {
    pub version: u8,
    pub flags: u32,
    pub table: Seq<(u32, u32)>,
}

impl View for TimeToSampleBox {
    type V = TimeToSampleView;

    open spec fn view(&self) -> TimeToSampleView {
        TimeToSampleView {
            version: self.version,
            flags: self.flags,
            table: self.table@,
        }
    }
}

/// Entry `i` of the table whose count field is at `p + 4` in `d`.
pub open spec fn stts_entry(d: Seq<u8>, p: int, i: int) -> (u32, u32) {
    let e = p + 8 + 8 * i;
    (be32(d, e), be32(d, e + 4))
}

pub open spec fn spec_stts(d: Seq<u8>, h: BoxHeader) -> Result<TimeToSampleView, ErrorView> {
    let p = h.content_start();
    if p + 8 > d.len() || p + 8 + 8 * be32(d, p + 4) > d.len() {
        eof()
    } else {
        Ok(
            TimeToSampleView {
                version: d[p],
                flags: be24(d, p + 1),
                table: Seq::new(be32(d, p + 4) as nat, |i: int| stts_entry(d, p, i)),
            },
        )
    }
}

impl TimeToSampleBox {
    /// Decodes the content of the box `header`; on failure the cursor is left where it
    /// was.
    pub fn read(reader: &mut BoxReader, header: BoxHeader) -> (r: Result<TimeToSampleBox, Error>)
        requires
            at_content(old(reader), header),
        ensures
            final(reader).data == old(reader).data,
            r is Err ==> final(reader).pos == old(reader).pos,
            r is Ok ==> final(reader).pos == box_end(old(reader).data@, header),
            rv(r) == spec_stts(old(reader).data@, header),
    {
        let start = reader.pos;
        match Self::decode(reader, header) {
            Ok(b) => Ok(b),
            Err(e) => {
                reader.pos = start;
                Err(e)
            },
        }
    }

    fn decode(reader: &mut BoxReader, header: BoxHeader) -> (r: Result<TimeToSampleBox, Error>)
        requires
            at_content(old(reader), header),
        ensures
            final(reader).data == old(reader).data,
            r is Ok ==> final(reader).pos == box_end(old(reader).data@, header),
            rv(r) == spec_stts(old(reader).data@, header),
    {
        let ghost d = reader.data@;
        let ghost p = reader.pos as int;
        let (version, flags) = reader.read_header_extra()?;
        let entry_count = reader.read_u32()?;
        if !reader.fits_exec(8 * entry_count as u64) {
            return Err(Error::EOF());
        }
        let mut table: Vec<(u32, u32)> = Vec::new();
        let mut i: u32 = 0;
        while i < entry_count
            invariant
                reader.data == old(reader).data,
                d == reader.data@,
                p + 8 + 8 * entry_count <= d.len(),
                i <= entry_count,
                reader.pos == p + 8 + 8 * i,
                table@.len() == i,
                forall|j: int| 0 <= j < i ==> table@[j] == stts_entry(d, p, j),
            decreases entry_count - i,
        {
            let a = reader.read_u32()?;
            let b = reader.read_u32()?;
            table.push((a, b));
            i = i + 1;
        }
        assert(table@ =~= Seq::new(entry_count as nat, |i: int| stts_entry(d, p, i)));
        reader.pos = header.end_in(reader);
        Ok(TimeToSampleBox { version, flags, table })
    }
}

/// Sample-to-chunk table: (first chunk, samples per chunk, description id).
#[derive(Clone, Debug)]
pub struct SampleToChunkBox {
    pub header: BoxHeader,
    pub version: u8,
    pub flags: u32,
    pub table: Vec<(u32, u32, u32)>,
}

pub struct SampleToChunkView {
    pub header: BoxHeader,
    pub version: u8,
    pub flags: u32,
    pub table: Seq<(u32, u32, u32)>,
}

impl View for SampleToChunkBox {
    type V = SampleToChunkView;

    open spec fn view(&self) -> SampleToChunkView {
        SampleToChunkView {
            header: self.header,
            version: self.version,
            flags: self.flags,
            table: self.table@,
        }
    }
}

/// Entry `i` of the table whose count field is at `p + 4` in `d`.
pub open spec fn stsc_entry(d: Seq<u8>, p: int, i: int) -> (u32, u32, u32) {
    let e = p + 8 + 12 * i;
    (be32(d, e), be32(d, e + 4), be32(d, e + 8))
}

pub open spec fn spec_stsc(d: Seq<u8>, h: BoxHeader) -> Result<SampleToChunkView, ErrorView> {
    let p = h.content_start();
    if p + 8 > d.len() || p + 8 + 12 * be32(d, p + 4) > d.len() {
        eof()
    } else {
        Ok(
            SampleToChunkView {
                header: h,
                version: d[p],
                flags: be24(d, p + 1),
                table: Seq::new(be32(d, p + 4) as nat, |i: int| stsc_entry(d, p, i)),
            },
        )
    }
}

impl SampleToChunkBox {
    /// Decodes the content of the box `header`; on failure the cursor is left where it
    /// was.
    pub fn read(reader: &mut BoxReader, header: BoxHeader) -> (r: Result<SampleToChunkBox, Error>)
        requires
            at_content(old(reader), header),
        ensures
            final(reader).data == old(reader).data,
            r is Err ==> final(reader).pos == old(reader).pos,
            r is Ok ==> final(reader).pos == box_end(old(reader).data@, header),
            rv(r) == spec_stsc(old(reader).data@, header),
    {
        let start = reader.pos;
        match Self::decode(reader, header) {
            Ok(b) => Ok(b),
            Err(e) => {
                reader.pos = start;
                Err(e)
            },
        }
    }

    fn decode(reader: &mut BoxReader, header: BoxHeader) -> (r: Result<SampleToChunkBox, Error>)
        requires
            at_content(old(reader), header),
        ensures
            final(reader).data == old(reader).data,
            r is Ok ==> final(reader).pos == box_end(old(reader).data@, header),
            rv(r) == spec_stsc(old(reader).data@, header),
    {
        let ghost d = reader.data@;
        let ghost p = reader.pos as int;
        let (version, flags) = reader.read_header_extra()?;
        let entry_count = reader.read_u32()?;
        if !reader.fits_exec(12 * entry_count as u64) {
            return Err(Error::EOF());
        }
        let mut table: Vec<(u32, u32, u32)> = Vec::new();
        let mut i: u32 = 0;
        while i < entry_count
            invariant
                reader.data == old(reader).data,
                d == reader.data@,
                p + 8 + 12 * entry_count <= d.len(),
                i <= entry_count,
                reader.pos == p + 8 + 12 * i,
                table@.len() == i,
                forall|j: int| 0 <= j < i ==> table@[j] == stsc_entry(d, p, j),
            decreases entry_count - i,
        {
            let a = reader.read_u32()?;
            let b = reader.read_u32()?;
            let c = reader.read_u32()?;
            table.push((a, b, c));
            i = i + 1;
        }
        assert(table@ =~= Seq::new(entry_count as nat, |i: int| stsc_entry(d, p, i)));
        reader.pos = header.end_in(reader);
        Ok(SampleToChunkBox { header,
                version, flags, table })
    }
}

/// Chunk offsets, 64-bit.
#[derive(Clone, Debug)]
pub struct ChunkOffset64Box {
    pub version: u8,
    pub flags: u32,
    pub table: Vec<u64>,
}

pub struct ChunkOffset64View {
    pub version: u8,
    pub flags: u32,
    pub table: Seq<u64>,
}

impl View for ChunkOffset64Box {
    type V = ChunkOffset64View;

    open spec fn view(&self) -> ChunkOffset64View {
        ChunkOffset64View {
            version: self.version,
            flags: self.flags,
            table: self.table@,
        }
    }
}

/// Entry `i` of the table whose count field is at `p + 4` in `d`.
pub open spec fn co64_entry(d: Seq<u8>, p: int, i: int) -> u64 {
    let e = p + 8 + 8 * i;
    be64(d, e)
}

pub open spec fn spec_co64(d: Seq<u8>, h: BoxHeader) -> Result<ChunkOffset64View, ErrorView> {
    let p = h.content_start();
    if p + 8 > d.len() || p + 8 + 8 * be32(d, p + 4) > d.len() {
        eof()
    } else {
        Ok(
            ChunkOffset64View {
                version: d[p],
                flags: be24(d, p + 1),
                table: Seq::new(be32(d, p + 4) as nat, |i: int| co64_entry(d, p, i)),
            },
        )
    }
}

impl ChunkOffset64Box {
    /// Decodes the content of the box `header`; on failure the cursor is left where it
    /// was.
    pub fn read(reader: &mut BoxReader, header: BoxHeader) -> (r: Result<ChunkOffset64Box, Error>)
        requires
            at_content(old(reader), header),
        ensures
            final(reader).data == old(reader).data,
            r is Err ==> final(reader).pos == old(reader).pos,
            r is Ok ==> final(reader).pos == box_end(old(reader).data@, header),
            rv(r) == spec_co64(old(reader).data@, header),
    {
        let start = reader.pos;
        match Self::decode(reader, header) {
            Ok(b) => Ok(b),
            Err(e) => {
                reader.pos = start;
                Err(e)
            },
        }
    }

    fn decode(reader: &mut BoxReader, header: BoxHeader) -> (r: Result<ChunkOffset64Box, Error>)
        requires
            at_content(old(reader), header),
        ensures
            final(reader).data == old(reader).data,
            r is Ok ==> final(reader).pos == box_end(old(reader).data@, header),
            rv(r) == spec_co64(old(reader).data@, header),
    {
        let ghost d = reader.data@;
        let ghost p = reader.pos as int;
        let (version, flags) = reader.read_header_extra()?;
        let entry_count = reader.read_u32()?;
        if !reader.fits_exec(8 * entry_count as u64) {
            return Err(Error::EOF());
        }
        let mut table: Vec<u64> = Vec::new();
        let mut i: u32 = 0;
        while i < entry_count
            invariant
                reader.data == old(reader).data,
                d == reader.data@,
                p + 8 + 8 * entry_count <= d.len(),
                i <= entry_count,
                reader.pos == p + 8 + 8 * i,
                table@.len() == i,
                forall|j: int| 0 <= j < i ==> table@[j] == co64_entry(d, p, j),
            decreases entry_count - i,
        {
            let a = reader.read_u64()?;
            table.push(a);
            i = i + 1;
        }
        assert(table@ =~= Seq::new(entry_count as nat, |i: int| co64_entry(d, p, i)));
        reader.pos = header.end_in(reader);
        Ok(ChunkOffset64Box { version, flags, table })
    }
}

/// Composition offsets: (sample count, sample offset) runs.
#[derive(Clone, Debug)]
pub struct CompositionOffsetBox {
    pub header: BoxHeader,
    pub version: u8,
    pub flags: u32,
    pub table: Vec<(u32, i32)>,
}

pub struct CompositionOffsetView {
    pub header: BoxHeader,
    pub version: u8,
    pub flags: u32,
    pub table: Seq<(u32, i32)>,
}

impl View for CompositionOffsetBox {
    type V = CompositionOffsetView;

    open spec fn view(&self) -> CompositionOffsetView {
        CompositionOffsetView {
            header: self.header,
            version: self.version,
            flags: self.flags,
            table: self.table@,
        }
    }
}

/// Entry `i` of the table whose count field is at `p + 4` in `d`.
pub open spec fn ctts_entry(d: Seq<u8>, p: int, i: int) -> (u32, i32) {
    let e = p + 8 + 8 * i;
    (be32(d, e), be32(d, e + 4) as i32)
}

pub open spec fn spec_ctts(d: Seq<u8>, h: BoxHeader) -> Result<CompositionOffsetView, ErrorView> {
    let p = h.content_start();
    if p + 8 > d.len() || p + 8 + 8 * be32(d, p + 4) > d.len() {
        eof()
    } else {
        Ok(
            CompositionOffsetView {
                header: h,
                version: d[p],
                flags: be24(d, p + 1),
                table: Seq::new(be32(d, p + 4) as nat, |i: int| ctts_entry(d, p, i)),
            },
        )
    }
}

impl CompositionOffsetBox {
    /// Decodes the content of the box `header`; on failure the cursor is left where it
    /// was.
    pub fn read(reader: &mut BoxReader, header: BoxHeader) -> (r: Result<CompositionOffsetBox, Error>)
        requires
            at_content(old(reader), header),
        ensures
            final(reader).data == old(reader).data,
            r is Err ==> final(reader).pos == old(reader).pos,
            r is Ok ==> final(reader).pos == box_end(old(reader).data@, header),
            rv(r) == spec_ctts(old(reader).data@, header),
    {
        let start = reader.pos;
        match Self::decode(reader, header) {
            Ok(b) => Ok(b),
            Err(e) => {
                reader.pos = start;
                Err(e)
            },
        }
    }

    fn decode(reader: &mut BoxReader, header: BoxHeader) -> (r: Result<CompositionOffsetBox, Error>)
        requires
            at_content(old(reader), header),
        ensures
            final(reader).data == old(reader).data,
            r is Ok ==> final(reader).pos == box_end(old(reader).data@, header),
            rv(r) == spec_ctts(old(reader).data@, header),
    {
        let ghost d = reader.data@;
        let ghost p = reader.pos as int;
        let (version, flags) = reader.read_header_extra()?;
        let entry_count = reader.read_u32()?;
        if !reader.fits_exec(8 * entry_count as u64) {
            return Err(Error::EOF());
        }
        let mut table: Vec<(u32, i32)> = Vec::new();
        let mut i: u32 = 0;
        while i < entry_count
            invariant
                reader.data == old(reader).data,
                d == reader.data@,
                p + 8 + 8 * entry_count <= d.len(),
                i <= entry_count,
                reader.pos == p + 8 + 8 * i,
                table@.len() == i,
                forall|j: int| 0 <= j < i ==> table@[j] == ctts_entry(d, p, j),
            decreases entry_count - i,
        {
            let a = reader.read_u32()?;
            let b = reader.read_i32()?;
            table.push((a, b));
            i = i + 1;
        }
        assert(table@ =~= Seq::new(entry_count as nat, |i: int| ctts_entry(d, p, i)));
        reader.pos = header.end_in(reader);
        Ok(CompositionOffsetBox { header,
                version, flags, table })
    }
}

/// Sync samples: the numbers of the key frames.
#[derive(Clone, Debug)]
pub struct SyncSampleBox {
    pub header: BoxHeader,
    pub version: u8,
    pub flags: u32,
    pub samples: Vec<u32>,
}

pub struct SyncSampleView {
    pub header: BoxHeader,
    pub version: u8,
    pub flags: u32,
    pub samples: Seq<u32>,
}

impl View for SyncSampleBox {
    type V = SyncSampleView;

    open spec fn view(&self) -> SyncSampleView {
        SyncSampleView {
            header: self.header,
            version: self.version,
            flags: self.flags,
            samples: self.samples@,
        }
    }
}

pub open spec fn spec_stss(d: Seq<u8>, h: BoxHeader) -> Result<SyncSampleView, ErrorView> {
    let p = h.content_start();
    if p + 8 > d.len() || p + 8 + 4 * be32(d, p + 4) > d.len() {
        eof()
    } else {
        Ok(
            SyncSampleView {
                header: h,
                version: d[p],
                flags: be24(d, p + 1),
                samples: Seq::new(be32(d, p + 4) as nat, |i: int| be32(d, p + 8 + 4 * i)),
            },
        )
    }
}

impl SyncSampleBox {
    /// Decodes the content of the box `header`; on failure the cursor is left where it
    /// was.
    pub fn read(reader: &mut BoxReader, header: BoxHeader) -> (r: Result<SyncSampleBox, Error>)
        requires
            at_content(old(reader), header),
        ensures
            final(reader).data == old(reader).data,
            r is Err ==> final(reader).pos == old(reader).pos,
            r is Ok ==> final(reader).pos == box_end(old(reader).data@, header),
            rv(r) == spec_stss(old(reader).data@, header),
    {
        let start = reader.pos;
        match Self::decode(reader, header) {
            Ok(b) => Ok(b),
            Err(e) => {
                reader.pos = start;
                Err(e)
            },
        }
    }

    fn decode(reader: &mut BoxReader, header: BoxHeader) -> (r: Result<SyncSampleBox, Error>)
        requires
            at_content(old(reader), header),
        ensures
            final(reader).data == old(reader).data,
            r is Ok ==> final(reader).pos == box_end(old(reader).data@, header),
            rv(r) == spec_stss(old(reader).data@, header),
    {
        let (version, flags) = reader.read_header_extra()?;
        let entry_count = reader.read_u32()?;
        if !reader.fits_exec(4 * entry_count as u64) {
            return Err(Error::EOF());
        }
        let samples = read_u32_entries(reader, entry_count)?;
        reader.pos = header.end_in(reader);
        Ok(SyncSampleBox { header, version, flags, samples })
    }
}

/// Chunk offsets, 32-bit.
#[derive(Clone, Debug)]
pub struct ChunkOffsetBox {
    pub header: BoxHeader,
    pub version: u8,
    pub flags: u32,
    pub table: Vec<u32>,
}

pub struct ChunkOffsetView {
    pub header: BoxHeader,
    pub version: u8,
    pub flags: u32,
    pub table: Seq<u32>,
}

impl View for ChunkOffsetBox {
    type V = ChunkOffsetView;

    open spec fn view(&self) -> ChunkOffsetView {
        ChunkOffsetView {
            header: self.header,
            version: self.version,
            flags: self.flags,
            table: self.table@,
        }
    }
}

pub open spec fn spec_stco(d: Seq<u8>, h: BoxHeader) -> Result<ChunkOffsetView, ErrorView> {
    let p = h.content_start();
    if p + 8 > d.len() || p + 8 + 4 * be32(d, p + 4) > d.len() {
        eof()
    } else {
        Ok(
            ChunkOffsetView {
                header: h,
                version: d[p],
                flags: be24(d, p + 1),
                table: Seq::new(be32(d, p + 4) as nat, |i: int| be32(d, p + 8 + 4 * i)),
            },
        )
    }
}

impl ChunkOffsetBox {
    /// Decodes the content of the box `header`; on failure the cursor is left where it
    /// was.
    pub fn read(reader: &mut BoxReader, header: BoxHeader) -> (r: Result<ChunkOffsetBox, Error>)
        requires
            at_content(old(reader), header),
        ensures
            final(reader).data == old(reader).data,
            r is Err ==> final(reader).pos == old(reader).pos,
            r is Ok ==> final(reader).pos == box_end(old(reader).data@, header),
            rv(r) == spec_stco(old(reader).data@, header),
    {
        let start = reader.pos;
        match Self::decode(reader, header) {
            Ok(b) => Ok(b),
            Err(e) => {
                reader.pos = start;
                Err(e)
            },
        }
    }

    fn decode(reader: &mut BoxReader, header: BoxHeader) -> (r: Result<ChunkOffsetBox, Error>)
        requires
            at_content(old(reader), header),
        ensures
            final(reader).data == old(reader).data,
            r is Ok ==> final(reader).pos == box_end(old(reader).data@, header),
            rv(r) == spec_stco(old(reader).data@, header),
    {
        let (version, flags) = reader.read_header_extra()?;
        let entry_count = reader.read_u32()?;
        if !reader.fits_exec(4 * entry_count as u64) {
            return Err(Error::EOF());
        }
        let table = read_u32_entries(reader, entry_count)?;
        reader.pos = header.end_in(reader);
        Ok(ChunkOffsetBox { header, version, flags, table })
    }
}

/// Sample sizes: one uniform size, or (when that is 0) one size per sample.
#[derive(Clone, Debug)]
pub struct SampleSizeBox {
    pub version: u8,
    pub flags: u32,
    pub sample_size: u32,
    pub sample_sizes: Vec<u32>,
}

pub struct SampleSizeView {
    pub version: u8,
    pub flags: u32,
    pub sample_size: u32,
    pub sample_sizes: Seq<u32>,
}

impl View for SampleSizeBox {
    type V = SampleSizeView;

    open spec fn view(&self) -> SampleSizeView {
        SampleSizeView {
            version: self.version,
            flags: self.flags,
            sample_size: self.sample_size,
            sample_sizes: self.sample_sizes@,
        }
    }
}

/// The per-sample table is read only when the uniform size is 0.
pub open spec fn spec_stsz(d: Seq<u8>, h: BoxHeader) -> Result<SampleSizeView, ErrorView> {
    let p = h.content_start();
    if p + 12 > d.len() {
        eof()
    } else if be32(d, p + 4) != 0 {
        Ok(
            SampleSizeView {
                version: d[p],
                flags: be24(d, p + 1),
                sample_size: be32(d, p + 4),
                sample_sizes: Seq::empty(),
            },
        )
    } else if p + 12 + 4 * be32(d, p + 8) > d.len() {
        eof()
    } else {
        Ok(
            SampleSizeView {
                version: d[p],
                flags: be24(d, p + 1),
                sample_size: 0,
                sample_sizes: Seq::new(be32(d, p + 8) as nat, |i: int| be32(d, p + 12 + 4 * i)),
            },
        )
    }
}

/// A uniform sample size leaves the per-sample table empty, whatever the sample count.
pub proof fn lemma_uniform_size_has_no_table(d: Seq<u8>, h: BoxHeader)
    requires
        spec_stsz(d, h) matches Ok(v) && v.sample_size != 0,
    ensures
        spec_stsz(d, h)->Ok_0.sample_sizes.len() == 0,
{
}

impl SampleSizeBox {
    /// Decodes the content of the box `header`; on failure the cursor is left where it
    /// was.
    pub fn read(reader: &mut BoxReader, header: BoxHeader) -> (r: Result<SampleSizeBox, Error>)
        requires
            at_content(old(reader), header),
        ensures
            final(reader).data == old(reader).data,
            r is Err ==> final(reader).pos == old(reader).pos,
            r is Ok ==> final(reader).pos == box_end(old(reader).data@, header),
            rv(r) == spec_stsz(old(reader).data@, header),
            r matches Ok(b) ==> (b.sample_size != 0 ==> b.sample_sizes@.len() == 0),
    {
        let start = reader.pos;
        match Self::decode(reader, header) {
            Ok(b) => Ok(b),
            Err(e) => {
                reader.pos = start;
                Err(e)
            },
        }
    }

    fn decode(reader: &mut BoxReader, header: BoxHeader) -> (r: Result<SampleSizeBox, Error>)
        requires
            at_content(old(reader), header),
        ensures
            final(reader).data == old(reader).data,
            r is Ok ==> final(reader).pos == box_end(old(reader).data@, header),
            rv(r) == spec_stsz(old(reader).data@, header),
            r matches Ok(b) ==> (b.sample_size != 0 ==> b.sample_sizes@.len() == 0),
    {
        let (version, flags) = reader.read_header_extra()?;
        let sample_size = reader.read_u32()?;
        let sample_count = reader.read_u32()?;
        let mut sample_sizes: Vec<u32> = Vec::new();
        if sample_size == 0 {
            if !reader.fits_exec(4 * sample_count as u64) {
                return Err(Error::EOF());
            }
            sample_sizes = read_u32_entries(reader, sample_count)?;
        }
        reader.pos = header.end_in(reader);
        Ok(SampleSizeBox { version, flags, sample_size, sample_sizes })
    }
}

/// One edit: a segment of the media timeline.
#[derive(Clone, Copy, Debug, PartialEq, Eq, Structural)]
pub struct EditEntry {
    pub segment_duration: u64,
    pub media_time: i64,
    pub media_rate_integer: u16,
    pub media_rate_fraction: u16,
}

/// Edit list.
#[derive(Clone, Debug)]
pub struct EditListBox {
    pub header: BoxHeader,
    pub version: u8,
    pub flags: u32,
    pub entries: Vec<EditEntry>,
}

pub struct EditListView {
    pub header: BoxHeader,
    pub version: u8,
    pub flags: u32,
    pub entries: Seq<EditEntry>,
}

impl View for EditListBox {
    type V = EditListView;

    open spec fn view(&self) -> EditListView {
        EditListView {
            header: self.header,
            version: self.version,
            flags: self.flags,
            entries: self.entries@,
        }
    }
}

/// Where the edit entries of `version` end, for `n` entries from `p + 8`.
pub open spec fn edits_end(p: int, version: u8, n: int) -> int {
    if version == 0 {
        p + 8 + 12 * n
    } else {
        p + 8 + 20 * n
    }
}

/// Edit `i` of a list of `version` whose count field is at `p + 4` in `d`.
pub open spec fn edit_entry(d: Seq<u8>, p: int, version: u8, i: int) -> EditEntry {
    if version == 0 {
        let e = p + 8 + 12 * i;
        EditEntry {
            segment_duration: be32(d, e) as u64,
            media_time: be32(d, e + 4) as i32 as i64,
            media_rate_integer: be16(d, e + 8),
            media_rate_fraction: be16(d, e + 10),
        }
    } else {
        let e = p + 8 + 20 * i;
        EditEntry {
            segment_duration: be64(d, e),
            media_time: be64(d, e + 8) as i64,
            media_rate_integer: be16(d, e + 16),
            media_rate_fraction: be16(d, e + 18),
        }
    }
}

pub open spec fn spec_elst(d: Seq<u8>, h: BoxHeader) -> Result<EditListView, ErrorView> {
    let p = h.content_start();
    if p + 8 > d.len() {
        eof()
    } else if d[p] > 1 {
        Err(ErrorView::InvalidData("unknown version"@))
    } else if edits_end(p, d[p], be32(d, p + 4) as int) > d.len() {
        eof()
    } else {
        Ok(
            EditListView {
                header: h,
                version: d[p],
                flags: be24(d, p + 1),
                entries: Seq::new(be32(d, p + 4) as nat, |i: int| edit_entry(d, p, d[p], i)),
            },
        )
    }
}

impl EditListBox {
    /// Decodes the content of the box `header`; on failure the cursor is left where it
    /// was.
    pub fn read(reader: &mut BoxReader, header: BoxHeader) -> (r: Result<EditListBox, Error>)
        requires
            at_content(old(reader), header),
        ensures
            final(reader).data == old(reader).data,
            r is Err ==> final(reader).pos == old(reader).pos,
            r is Ok ==> final(reader).pos == box_end(old(reader).data@, header),
            rv(r) == spec_elst(old(reader).data@, header),
    {
        let start = reader.pos;
        match Self::decode(reader, header) {
            Ok(b) => Ok(b),
            Err(e) => {
                reader.pos = start;
                Err(e)
            },
        }
    }

    fn decode(reader: &mut BoxReader, header: BoxHeader) -> (r: Result<EditListBox, Error>)
        requires
            at_content(old(reader), header),
        ensures
            final(reader).data == old(reader).data,
            r is Ok ==> final(reader).pos == box_end(old(reader).data@, header),
            rv(r) == spec_elst(old(reader).data@, header),
    {
        let ghost d = reader.data@;
        let ghost p = reader.pos as int;
        let (version, flags) = reader.read_header_extra()?;
        let entry_count = reader.read_u32()?;
        if version > 1 {
            return Err(Error::InvalidData("unknown version".to_owned()));
        }
        let width: u64 = if version == 0 {
            12
        } else {
            20
        };
        if !reader.fits_exec(width * entry_count as u64) {
            return Err(Error::EOF());
        }
        let mut entries: Vec<EditEntry> = Vec::new();
        let mut i: u32 = 0;
        while i < entry_count
            invariant
                reader.data == old(reader).data,
                d == reader.data@,
                version == d[p],
                version <= 1,
                width == if version == 0 { 12int } else { 20int },
                edits_end(p, version, entry_count as int) <= d.len(),
                i <= entry_count,
                reader.pos == edits_end(p, version, i as int),
                entries@.len() == i,
                forall|j: int| 0 <= j < i ==> entries@[j] == edit_entry(d, p, version, j),
            decreases entry_count - i,
        {
            let (segment_duration, media_time) = if version == 0 {
                let s = reader.read_u32()?;
                let t = reader.read_i32()?;
                (s as u64, t as i64)
            } else {
                let s = reader.read_u64()?;
                let t = reader.read_i64()?;
                (s, t)
            };
            let media_rate_integer = reader.read_u16()?;
            let media_rate_fraction = reader.read_u16()?;
            entries.push(
                EditEntry { segment_duration, media_time, media_rate_integer, media_rate_fraction },
            );
            i = i + 1;
        }
        assert(entries@ =~= Seq::new(entry_count as nat, |i: int| edit_entry(d, p, version, i)));
        reader.pos = header.end_in(reader);
        Ok(EditListBox { header, version, flags, entries })
    }
}

} // verus!
