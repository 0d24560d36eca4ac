use mp4kit::{
    language_string, parse, BoxContent, BoxHeader, BoxReader, BoxType, DataReferenceBox, EditBox,
    Error, FourCC, ListBox, Matrix, Mp4, MvhdBox, Reference, SampleSizeBox, TimeToSampleBox,
    VideoSampleDescriptionBox, HEADER_LENGTH,
};

fn be32(v: u32) -> Vec<u8> {
    v.to_be_bytes().to_vec()
}

fn boxed(code: &[u8; 4], payload: &[u8]) -> Vec<u8> {
    let mut out = be32(8 + payload.len() as u32);
    out.extend_from_slice(code);
    out.extend_from_slice(payload);
    out
}

fn ftyp() -> Vec<u8> {
    let mut p = b"isom".to_vec();
    p.extend(be32(0x200));
    p.extend_from_slice(b"isom");
    boxed(b"ftyp", &p)
}

fn mvhd_payload(version: u8) -> Vec<u8> {
    let mut p = vec![version, 0, 0, 1];
    p.extend(be32(11)); // creation
    p.extend(be32(12)); // modification
    p.extend(be32(1000)); // timescale
    p.extend(be32(5000)); // duration
    p.extend(be32(0x00010000)); // rate
    p.extend_from_slice(&[0x01, 0x00]); // volume
    p.extend_from_slice(&[0; 10]);
    for v in [0x10000u32, 0, 0, 0, 0x10000, 0, 0, 0, 0x40000000] {
        p.extend(be32(v));
    }
    for v in 0..6u32 {
        p.extend(be32(v));
    }
    p.extend(be32(2)); // next track id
    p
}

fn mvhd() -> Vec<u8> {
    boxed(b"mvhd", &mvhd_payload(0))
}

fn movie(children: &[Vec<u8>]) -> Vec<u8> {
    let body: Vec<u8> = children.concat();
    boxed(b"moov", &body)
}

fn mdat_to_end() -> Vec<u8> {
    let mut out = be32(0);
    out.extend_from_slice(b"mdat");
    out.extend_from_slice(&[1, 2, 3, 4, 5]);
    out
}

fn sample_file() -> Vec<u8> {
    let mut file = ftyp();
    file.extend(movie(&[mvhd(), boxed(b"trak", &[])]));
    file.extend(mdat_to_end());
    file
}

#[test]
fn parses_minimal_file() {
    let file = sample_file();
    let mp4 = Mp4::parse(&file).unwrap();
    match &mp4.ftyp.content {
        BoxContent::Ftyp(f) => {
            assert_eq!(f.major_brand, "isom");
            assert_eq!(f.minor_brand, 0x200);
            assert_eq!(f.compatible_brands, vec!["isom".to_string()]);
        },
        _ => panic!("ftyp expected"),
    }
    match &mp4.moov.content {
        BoxContent::Moov(m) => {
            assert_eq!(m.mvhd.timescale, 1000);
            assert_eq!(m.mvhd.duration, 5000);
            assert_eq!(m.mvhd.next_track_id, 2);
            assert_eq!(m.tracks.len(), 1);
            assert_eq!(m.tracks[0].content.children.len(), 0);
        },
        _ => panic!("moov expected"),
    }
    assert_eq!(mp4.mdat.header.size, 0);
    assert_eq!(mp4.mdat.header.name, BoxType::MediaData);
}

#[test]
fn missing_movie_is_named() {
    let mut file = ftyp();
    file.extend(mdat_to_end());
    match Mp4::parse(&file) {
        Err(Error::BoxNotFound(msg)) => assert!(msg.contains("Moov")),
        other => panic!("unexpected {:?}", other),
    }
}

#[test]
fn missing_file_type_and_media_data() {
    let mut file = movie(&[mvhd(), boxed(b"trak", &[])]);
    file.extend(mdat_to_end());
    match Mp4::parse(&file) {
        Err(Error::BoxNotFound(msg)) => assert!(msg.contains("Ftyp")),
        other => panic!("unexpected {:?}", other),
    }
    let mut file = ftyp();
    file.extend(movie(&[mvhd(), boxed(b"trak", &[])]));
    match Mp4::parse(&file) {
        Err(Error::BoxNotFound(msg)) => assert!(msg.contains("Mdat")),
        other => panic!("unexpected {:?}", other),
    }
}

#[test]
fn data_reference_count_past_its_size_is_not_trusted() {
    let mut payload = vec![0, 0, 0, 0];
    payload.extend(be32(2));
    payload.extend(boxed(b"url ", &[0, 0, 0, 1]));
    let mut bytes = boxed(b"dref", &payload);
    bytes.extend(boxed(b"url ", &[0, 0, 0, 1]));
    let mut reader = BoxReader::new(&bytes);
    let header = BoxHeader::read(&mut reader).unwrap();
    let dref = DataReferenceBox::read(&mut reader, header).unwrap();
    assert_eq!(dref.references.len(), 1);
    match &dref.references[0] {
        Reference::Url(u) => {
            assert_eq!(u.flags, 1);
            assert_eq!(u.location, "");
        },
    }
}

#[test]
fn sample_description_needs_one_entry() {
    let mut payload = vec![0, 0, 0, 0];
    payload.extend(be32(2));
    payload.extend(boxed(b"avc1", &[0; 8]));
    let bytes = boxed(b"stsd", &payload);
    let mut reader = BoxReader::new(&bytes);
    let header = BoxHeader::read(&mut reader).unwrap();
    assert!(matches!(
        VideoSampleDescriptionBox::read(&mut reader, header),
        Err(Error::InvalidData(_))
    ));
}

#[test]
fn sample_description_keeps_codec_header() {
    let mut payload = vec![0, 0, 0, 0];
    payload.extend(be32(1));
    payload.extend(boxed(b"avc1", &[0; 8]));
    let bytes = boxed(b"stsd", &payload);
    let mut reader = BoxReader::new(&bytes);
    let header = BoxHeader::read(&mut reader).unwrap();
    let stsd = VideoSampleDescriptionBox::read(&mut reader, header).unwrap();
    let mp4kit::VideoCodec::Unknown(h) = stsd.codec;
    assert_eq!(h.size, 16);
    assert_eq!(h.start, 16);
}

#[test]
fn unknown_child_of_movie_is_skipped() {
    let mut file = ftyp();
    file.extend(movie(&[mvhd(), boxed(b"abcd", &[9; 13]), boxed(b"trak", &[])]));
    file.extend(mdat_to_end());
    let mp4 = Mp4::parse(&file).unwrap();
    match &mp4.moov.content {
        BoxContent::Moov(m) => assert_eq!(m.tracks.len(), 1),
        _ => panic!("moov expected"),
    }
    let moov = movie(&[mvhd(), boxed(b"abcd", &[9; 13]), boxed(b"trak", &[])]);
    let mut reader = BoxReader::new(&moov);
    let header = BoxHeader::read(&mut reader).unwrap();
    let list = ListBox::read(&mut reader, header).unwrap();
    assert_eq!(list.children.len(), 3);
    assert!(matches!(list.children[1].content, BoxContent::Unknown(_)));
    assert_eq!(list.children[1].header.name, BoxType::Unknown(0x61626364));
    assert!(matches!(list.children[2].content, BoxContent::Trak(_)));
}

#[test]
fn short_size_is_taken_as_declared() {
    for size in [8u32, 100, 0xFFFF_FFFF] {
        let mut bytes = be32(size);
        bytes.extend_from_slice(b"free");
        let mut reader = BoxReader::new(&bytes);
        let h = BoxHeader::read(&mut reader).unwrap();
        assert_eq!(h.size, size as u64);
        assert_eq!(h.header_len, 8);
        assert_eq!(reader.pos, 8);
    }
}

#[test]
fn extended_size_forms() {
    let header = |v: u64| {
        let mut bytes = be32(1);
        bytes.extend_from_slice(b"mdat");
        bytes.extend_from_slice(&v.to_be_bytes());
        bytes
    };
    let bytes = header(16);
    let h = BoxHeader::read(&mut BoxReader::new(&bytes)).unwrap();
    assert_eq!((h.size, h.header_len), (16, 16));
    let bytes = header(0x1_0000_0000);
    let h = BoxHeader::read(&mut BoxReader::new(&bytes)).unwrap();
    assert_eq!(h.size, 0x1_0000_0000);
    let bytes = header(0);
    let h = BoxHeader::read(&mut BoxReader::new(&bytes)).unwrap();
    assert_eq!(h.size, 0);
    for v in [1u64, 8, 15] {
        let bytes = header(v);
        assert!(matches!(BoxHeader::read(&mut BoxReader::new(&bytes)), Err(Error::InvalidData(_))));
    }
}

#[test]
fn short_header_is_end_of_stream() {
    let bytes = [0u8, 0, 0, 8, b'f', b'r'];
    assert!(matches!(BoxHeader::read(&mut BoxReader::new(&bytes)), Err(Error::EOF())));
    let mut bytes = be32(1);
    bytes.extend_from_slice(b"mdat");
    bytes.extend_from_slice(&[0, 0]);
    assert!(matches!(BoxHeader::read(&mut BoxReader::new(&bytes)), Err(Error::EOF())));
}

#[test]
fn size_below_preamble_is_invalid() {
    let mut bytes = be32(5);
    bytes.extend_from_slice(b"free");
    assert!(matches!(BoxHeader::read(&mut BoxReader::new(&bytes)), Err(Error::InvalidData(_))));
}

#[test]
fn uniform_sample_size_has_no_table() {
    let mut payload = vec![0, 0, 0, 0];
    payload.extend(be32(7));
    payload.extend(be32(3));
    let bytes = boxed(b"stsz", &payload);
    let mut reader = BoxReader::new(&bytes);
    let header = BoxHeader::read(&mut reader).unwrap();
    let stsz = SampleSizeBox::read(&mut reader, header).unwrap();
    assert_eq!(stsz.sample_size, 7);
    assert!(stsz.sample_sizes.is_empty());
}

#[test]
fn per_sample_sizes_are_read_in_order() {
    let mut payload = vec![0, 0, 0, 0];
    payload.extend(be32(0));
    payload.extend(be32(3));
    for v in [10u32, 20, 30] {
        payload.extend(be32(v));
    }
    let bytes = boxed(b"stsz", &payload);
    let mut reader = BoxReader::new(&bytes);
    let header = BoxHeader::read(&mut reader).unwrap();
    let stsz = SampleSizeBox::read(&mut reader, header).unwrap();
    assert_eq!(stsz.sample_sizes, vec![10, 20, 30]);
}

#[test]
fn decoding_twice_gives_equal_records() {
    let file = sample_file();
    let a = Mp4::parse(&file).unwrap();
    let b = Mp4::parse(&file).unwrap();
    assert_eq!(format!("{:?}", a), format!("{:?}", b));
}

#[test]
fn children_fit_their_container() {
    let moov = movie(&[mvhd(), boxed(b"trak", &[]), boxed(b"udta", &[])]);
    let mut reader = BoxReader::new(&moov);
    let header = BoxHeader::read(&mut reader).unwrap();
    let list = ListBox::read(&mut reader, header).unwrap();
    let total: u64 = list.children.iter().map(|c| c.header.size).sum();
    assert_eq!(total, header.size - HEADER_LENGTH);
}

#[test]
fn overrunning_child_is_invalid() {
    let mut body = mvhd();
    body.extend(be32(200));
    body.extend_from_slice(b"trak");
    let mut moov = boxed(b"moov", &body);
    moov.extend_from_slice(&[0; 200]);
    let mut reader = BoxReader::new(&moov);
    let header = BoxHeader::read(&mut reader).unwrap();
    assert!(matches!(ListBox::read(&mut reader, header), Err(Error::InvalidData(_))));
}

#[test]
fn movie_without_header_or_track() {
    let mut file = ftyp();
    file.extend(movie(&[boxed(b"trak", &[])]));
    file.extend(mdat_to_end());
    match Mp4::parse(&file) {
        Err(Error::BoxNotFound(msg)) => assert!(msg.contains("Mvhd")),
        other => panic!("unexpected {:?}", other),
    }
    let mut file = ftyp();
    file.extend(movie(&[mvhd()]));
    file.extend(mdat_to_end());
    match Mp4::parse(&file) {
        Err(Error::BoxNotFound(msg)) => assert!(msg.contains("track")),
        other => panic!("unexpected {:?}", other),
    }
}

#[test]
fn last_movie_header_wins() {
    let mut second = mvhd_payload(0);
    second[12..16].copy_from_slice(&be32(600));
    let mut file = ftyp();
    file.extend(movie(&[mvhd(), boxed(b"mvhd", &second), boxed(b"trak", &[])]));
    file.extend(mdat_to_end());
    let mp4 = Mp4::parse(&file).unwrap();
    match &mp4.moov.content {
        BoxContent::Moov(m) => assert_eq!(m.mvhd.timescale, 600),
        _ => panic!("moov expected"),
    }
}

#[test]
fn movie_header_version_one() {
    let mut p = vec![1, 0, 0, 0];
    p.extend_from_slice(&7u64.to_be_bytes());
    p.extend_from_slice(&8u64.to_be_bytes());
    p.extend(be32(90000));
    p.extend_from_slice(&0x1_0000_0001u64.to_be_bytes());
    p.extend_from_slice(&mvhd_payload(0)[20..]);
    let bytes = boxed(b"mvhd", &p);
    let mut reader = BoxReader::new(&bytes);
    let header = BoxHeader::read(&mut reader).unwrap();
    let m = MvhdBox::read(&mut reader, header).unwrap();
    assert_eq!(m.creation_time, 7);
    assert_eq!(m.modification_time, 8);
    assert_eq!(m.timescale, 90000);
    assert_eq!(m.duration, 0x1_0000_0001);
    assert_eq!(m.next_track_id, 2);
    assert_eq!(m.matrix.w, 0x40000000);
}

#[test]
fn unknown_version_is_invalid_data() {
    let bytes = boxed(b"mvhd", &mvhd_payload(2));
    let mut reader = BoxReader::new(&bytes);
    let header = BoxHeader::read(&mut reader).unwrap();
    assert!(matches!(MvhdBox::read(&mut reader, header), Err(Error::InvalidData(_))));
}

#[test]
fn truncated_record_is_end_of_stream() {
    let mut file = ftyp();
    let mut m = mvhd();
    m.truncate(50);
    m[0..4].copy_from_slice(&be32(50));
    file.extend(movie(&[m, boxed(b"trak", &[])]));
    file.extend(mdat_to_end());
    assert!(matches!(Mp4::parse(&file), Err(Error::EOF())));
}

#[test]
fn edit_box_rejects_other_children() {
    let bytes = boxed(b"edts", &boxed(b"free", &[]));
    let mut reader = BoxReader::new(&bytes);
    let header = BoxHeader::read(&mut reader).unwrap();
    assert!(matches!(EditBox::read(&mut reader, header), Err(Error::InvalidBoxType())));
}

#[test]
fn edit_list_entries() {
    let mut p = vec![0, 0, 0, 0];
    p.extend(be32(1));
    p.extend(be32(3000));
    p.extend(be32(0xFFFF_FFFF));
    p.extend_from_slice(&[0, 1, 0, 0]);
    let bytes = boxed(b"edts", &boxed(b"elst", &p));
    let mut reader = BoxReader::new(&bytes);
    let header = BoxHeader::read(&mut reader).unwrap();
    let edts = EditBox::read(&mut reader, header).unwrap();
    let list = edts.list.unwrap();
    assert_eq!(list.entries.len(), 1);
    assert_eq!(list.entries[0].segment_duration, 3000);
    assert_eq!(list.entries[0].media_time, -1);
    assert_eq!(list.entries[0].media_rate_integer, 1);
}

#[test]
fn time_to_sample_table() {
    let mut p = vec![0, 0, 0, 0];
    p.extend(be32(2));
    for v in [5u32, 100, 1, 200] {
        p.extend(be32(v));
    }
    let bytes = boxed(b"stts", &p);
    let mut reader = BoxReader::new(&bytes);
    let header = BoxHeader::read(&mut reader).unwrap();
    let t = TimeToSampleBox::read(&mut reader, header).unwrap();
    assert_eq!(t.table, vec![(5, 100), (1, 200)]);
    let mut short = p.clone();
    short[7] = 3;
    let bytes = boxed(b"stts", &short);
    let mut reader = BoxReader::new(&bytes);
    let header = BoxHeader::read(&mut reader).unwrap();
    assert!(matches!(TimeToSampleBox::read(&mut reader, header), Err(Error::EOF())));
}

#[test]
fn handler_name_stops_at_nul_and_must_be_utf8() {
    let mut p = vec![0, 0, 0, 0];
    p.extend_from_slice(b"mhlrvide");
    p.extend_from_slice(&[0; 12]);
    p.extend_from_slice(b"Video\0junk");
    let bytes = boxed(b"hdlr", &p);
    let mut reader = BoxReader::new(&bytes);
    let header = BoxHeader::read(&mut reader).unwrap();
    let h = mp4kit::HandlerBox::read(&mut reader, header).unwrap();
    assert_eq!(h.component_type, "mhlr");
    assert_eq!(h.handler, "vide");
    assert_eq!(h.name, "Video");
    let mut bad = p.clone();
    bad[24] = 0xFF;
    let bytes = boxed(b"hdlr", &bad);
    let mut reader = BoxReader::new(&bytes);
    let header = BoxHeader::read(&mut reader).unwrap();
    assert!(matches!(mp4kit::HandlerBox::read(&mut reader, header), Err(Error::InvalidData(_))));
    assert_eq!(reader.show_error(), "invalid UTF-8 string");
}

#[test]
fn file_type_with_bad_size() {
    let bytes = boxed(b"ftyp", b"isom\0\0\0");
    let mut reader = BoxReader::new(&bytes);
    let header = BoxHeader::read(&mut reader).unwrap();
    assert!(matches!(mp4kit::FtypBox::read(&mut reader, header), Err(Error::InvalidData(_))));
}

#[test]
fn media_box_selects_children() {
    let mut mdhd = vec![0, 0, 0, 0];
    for v in [1u32, 2, 44100, 88200] {
        mdhd.extend(be32(v));
    }
    mdhd.extend_from_slice(&[0x15, 0xC7, 0, 0]);
    let mut body = boxed(b"mdhd", &mdhd);
    body.extend(boxed(b"minf", &[]));
    let mdia = boxed(b"mdia", &body);
    let mut file = ftyp();
    file.extend(movie(&[mvhd(), boxed(b"trak", &mdia)]));
    file.extend(mdat_to_end());
    let mp4 = Mp4::parse(&file).unwrap();
    let BoxContent::Moov(m) = &mp4.moov.content else { panic!("moov expected") };
    let BoxContent::Mdia(media) = &m.tracks[0].content.children[0].content else {
        panic!("mdia expected")
    };
    assert_eq!(media.media_header.timescale, 44100);
    assert_eq!(media.media_header.language, "eng");
    assert!(media.handler.is_none());
    assert!(media.info.is_some());
    let missing = boxed(b"mdia", &boxed(b"minf", &[]));
    let mut reader = BoxReader::new(&missing);
    let header = BoxHeader::read(&mut reader).unwrap();
    match mp4kit::MediaBox::read(&mut reader, header) {
        Err(Error::BoxNotFound(msg)) => assert!(msg.contains("mdhd")),
        other => panic!("unexpected {:?}", other),
    }
}

#[test]
fn language_letters() {
    assert_eq!(language_string(0x15C7), "eng");
    assert_eq!(language_string(0), "```");
}

#[test]
fn registry_round_trip() {
    assert_eq!(BoxType::from_code(0x6d6f6f76), BoxType::Movie);
    assert_eq!(BoxType::Movie.code(), 0x6d6f6f76);
    assert_eq!(BoxType::from_code(0x12345678), BoxType::Unknown(0x12345678));
    assert_eq!(BoxType::Unknown(0x12345678).code(), 0x12345678);
    assert_eq!(BoxType::from_code(FourCC::from_str("ctts")), BoxType::CompositionOffset);
    assert_eq!(BoxType::Wide.fourcc().value, *b"wide");
}

#[test]
fn root_header_and_defaults() {
    let root = BoxHeader::root("Mp4 ");
    assert_eq!(root.name, BoxType::Root(0x4d703420));
    assert_eq!(root.size, 0);
    let m = Matrix::default();
    assert_eq!((m.a, m.d, m.w), (0x10000, 0x10000, 0x40000000));
    let f = mp4kit::FtypBox::default();
    assert!(f.major_brand.is_empty() && f.compatible_brands.is_empty());
}

#[test]
fn error_messages() {
    assert_eq!(Error::EOF().to_string(), "End of File");
    assert_eq!(Error::InvalidBoxType().to_string(), "Invalid box type");
    assert_eq!(Error::BoxNotFound("x".to_string()).to_string(), "x");
    assert_eq!(Error::InternalError().to_string(), "Internal error");
    assert_eq!(Error::FileNotFound().to_string(), "File not found");
}

#[test]
fn typed_entry_points() {
    let bytes = boxed(b"wide", &[0; 4]);
    let mut parser = parse(&bytes);
    let w = mp4kit::WideBox::parse(&mut parser).unwrap();
    assert_eq!(w.header.size, 12);
    assert_eq!(parser.reader.pos, 12);
    let mut parser = parse(&bytes);
    assert!(matches!(mp4kit::TrackHeaderBox::parse(&mut parser), Err(Error::InvalidBoxType())));
    let mut parser = parse(&bytes);
    let h = parser.next_header_with_type(BoxType::Wide).unwrap();
    assert_eq!(h.start, 0);
    assert_eq!(parser.get_reader().pos, 8);
}

#[test]
fn lazy_iterator_yields_one_child_at_a_time() {
    let file = sample_file();
    let mut reader = BoxReader::new(&file);
    let mut iter = ListBox::iter(BoxHeader::root("Mp4 "));
    let first = iter.next(&mut reader).unwrap().unwrap();
    assert_eq!(first.header.name, BoxType::FileType);
    assert_eq!(reader.pos, 20);
    let second = iter.next(&mut reader).unwrap().unwrap();
    assert_eq!(second.header.name, BoxType::Movie);
    let third = iter.next(&mut reader).unwrap().unwrap();
    assert_eq!(third.header.name, BoxType::MediaData);
    assert!(iter.next(&mut reader).unwrap().is_none());
}

#[test]
fn wide_padding_at_top_level_is_tolerated() {
    let mut file = ftyp();
    file.extend(boxed(b"wide", &[]));
    file.extend(movie(&[mvhd(), boxed(b"trak", &[])]));
    file.extend(mdat_to_end());
    let mp4 = Mp4::parse(&file).unwrap();
    assert_eq!(mp4.moov.header.start, 28);
    assert!(mp4.is_wide);
    assert!(!Mp4::parse(&sample_file()).unwrap().is_wide);
}

#[test]
fn data_info_needs_a_data_reference() {
    let mut dref = vec![0, 0, 0, 0];
    dref.extend(be32(1));
    dref.extend(boxed(b"url ", b"\0\0\0\0http://x"));
    let bytes = boxed(b"dinf", &boxed(b"dref", &dref));
    let mut reader = BoxReader::new(&bytes);
    let header = BoxHeader::read(&mut reader).unwrap();
    let dinf = mp4kit::DataInfoBox::read(&mut reader, header).unwrap();
    let Reference::Url(u) = &dinf.data_reference.references[0];
    assert_eq!(u.location, "http://x");
    let bytes = boxed(b"dinf", &boxed(b"free", &[]));
    let mut reader = BoxReader::new(&bytes);
    let header = BoxHeader::read(&mut reader).unwrap();
    assert!(matches!(mp4kit::DataInfoBox::read(&mut reader, header), Err(Error::InvalidBoxType())));
}

#[test]
fn chunk_and_composition_tables() {
    let mut p = vec![0, 0, 0, 0];
    p.extend(be32(1));
    p.extend_from_slice(&0x1_0000_0002u64.to_be_bytes());
    let bytes = boxed(b"co64", &p);
    let mut reader = BoxReader::new(&bytes);
    let header = BoxHeader::read(&mut reader).unwrap();
    let t = mp4kit::ChunkOffset64Box::read(&mut reader, header).unwrap();
    assert_eq!(t.table, vec![0x1_0000_0002]);

    let mut p = vec![0, 0, 0, 0];
    p.extend(be32(1));
    p.extend(be32(4));
    p.extend(be32(0xFFFF_FFFE));
    let bytes = boxed(b"ctts", &p);
    let mut reader = BoxReader::new(&bytes);
    let header = BoxHeader::read(&mut reader).unwrap();
    let t = mp4kit::CompositionOffsetBox::read(&mut reader, header).unwrap();
    assert_eq!(t.table, vec![(4, -2)]);

    let mut p = vec![0, 0, 0, 0];
    p.extend(be32(1));
    for v in [1u32, 10, 1] {
        p.extend(be32(v));
    }
    let bytes = boxed(b"stsc", &p);
    let mut parser = parse(&bytes);
    let t = mp4kit::SampleToChunkBox::parse(&mut parser).unwrap();
    assert_eq!(t.table, vec![(1, 10, 1)]);

    let mut p = vec![0, 0, 0, 0];
    p.extend(be32(2));
    p.extend(be32(1));
    p.extend(be32(31));
    let bytes = boxed(b"stss", &p);
    let mut reader = BoxReader::new(&bytes);
    let header = BoxHeader::read(&mut reader).unwrap();
    let t = mp4kit::SyncSampleBox::read(&mut reader, header).unwrap();
    assert_eq!(t.samples, vec![1, 31]);
    let bytes = boxed(b"stco", &p);
    let mut reader = BoxReader::new(&bytes);
    let header = BoxHeader::read(&mut reader).unwrap();
    let t = mp4kit::ChunkOffsetBox::read(&mut reader, header).unwrap();
    assert_eq!(t.table, vec![1, 31]);
}

#[test]
fn media_information_headers() {
    let bytes = boxed(b"vmhd", &[0, 0, 0, 1, 0, 0x40, 0, 1, 0, 2, 0, 3]);
    let mut reader = BoxReader::new(&bytes);
    let header = BoxHeader::read(&mut reader).unwrap();
    let v = mp4kit::VideoInfoBox::read(&mut reader, header).unwrap();
    assert_eq!((v.flags, v.graphics_mode, v.op_color), (1, 0x40, (1, 2, 3)));
    let bytes = boxed(b"smhd", &[0, 0, 0, 0, 0xFF, 0x00, 0, 0]);
    let mut reader = BoxReader::new(&bytes);
    let header = BoxHeader::read(&mut reader).unwrap();
    let s = mp4kit::SoundInfoBox::read(&mut reader, header).unwrap();
    assert_eq!(s.balance, 0xFF00);
}

#[test]
fn track_header_fields() {
    let mut p = vec![0, 0, 0, 3];
    for v in [1u32, 2, 7, 0, 900] {
        p.extend(be32(v));
    }
    p.extend_from_slice(&[0; 8]);
    p.extend_from_slice(&[0, 1, 0, 2, 1, 0, 0, 0]);
    for v in [0x10000u32, 0, 0, 0, 0x10000, 0, 0, 0, 0x40000000] {
        p.extend(be32(v));
    }
    p.extend(be32(640 << 16));
    p.extend(be32(480 << 16));
    let bytes = boxed(b"tkhd", &p);
    let mut parser = parse(&bytes);
    let t = mp4kit::TrackHeaderBox::parse(&mut parser).unwrap();
    assert_eq!((t.track_id, t.duration, t.layer, t.alternate_group, t.volume), (7, 900, 1, 2, 0x100));
    assert_eq!((t.width >> 16, t.height >> 16), (640, 480));
    assert_eq!(t.flags, 3);
}

#[test]
fn fourcc_text() {
    assert_eq!(FourCC::from_u32(0x6d6f6f76).to_string(), "moov");
    assert_eq!(FourCC { value: [0xFF, 0, 0, 0] }.to_string(), "null");
}

#[test]
fn data_reference_children_must_be_urls_within_the_box() {
    let mut payload = vec![0, 0, 0, 0];
    payload.extend(be32(1));
    payload.extend(boxed(b"alis", &[0, 0, 0, 1]));
    let bytes = boxed(b"dref", &payload);
    let mut reader = BoxReader::new(&bytes);
    let header = BoxHeader::read(&mut reader).unwrap();
    assert!(matches!(DataReferenceBox::read(&mut reader, header), Err(Error::InvalidBoxType())));

    let mut payload = vec![0, 0, 0, 0];
    payload.extend(be32(1));
    payload.extend(be32(40));
    payload.extend_from_slice(b"url ");
    payload.extend_from_slice(&[0, 0, 0, 1]);
    let mut bytes = boxed(b"dref", &payload);
    bytes.extend_from_slice(&[0; 40]);
    let mut reader = BoxReader::new(&bytes);
    let header = BoxHeader::read(&mut reader).unwrap();
    assert!(matches!(DataReferenceBox::read(&mut reader, header), Err(Error::InvalidData(_))));
}

#[test]
fn edit_box_holds_one_edit_list_only() {
    let mut p = vec![0, 0, 0, 0];
    p.extend(be32(0));
    let mut body = boxed(b"elst", &p);
    body.extend(boxed(b"free", &[]));
    let bytes = boxed(b"edts", &body);
    let mut reader = BoxReader::new(&bytes);
    let header = BoxHeader::read(&mut reader).unwrap();
    assert!(matches!(EditBox::read(&mut reader, header), Err(Error::InvalidBoxType())));
    let bytes = boxed(b"edts", &[]);
    let mut reader = BoxReader::new(&bytes);
    let header = BoxHeader::read(&mut reader).unwrap();
    assert!(EditBox::read(&mut reader, header).unwrap().list.is_none());
    assert_eq!(reader.pos, 8);
}

#[test]
fn data_info_holds_one_child_only() {
    let mut dref = vec![0, 0, 0, 0];
    dref.extend(be32(0));
    let mut body = boxed(b"dref", &dref);
    body.extend(boxed(b"free", &[]));
    let bytes = boxed(b"dinf", &body);
    let mut reader = BoxReader::new(&bytes);
    let header = BoxHeader::read(&mut reader).unwrap();
    assert!(matches!(mp4kit::DataInfoBox::read(&mut reader, header), Err(Error::InvalidBoxType())));
}

#[test]
fn decoders_end_at_the_box_end() {
    let mut p = mvhd_payload(0);
    p.extend_from_slice(&[7; 6]);
    let mut bytes = boxed(b"mvhd", &p);
    bytes.extend(boxed(b"free", &[]));
    let mut reader = BoxReader::new(&bytes);
    let header = BoxHeader::read(&mut reader).unwrap();
    MvhdBox::read(&mut reader, header).unwrap();
    assert_eq!(reader.pos, 114);

    let bytes = boxed(b"mdat", &[1, 2, 3]);
    let mut reader = BoxReader::new(&bytes);
    let header = BoxHeader::read(&mut reader).unwrap();
    mp4kit::MediaDataBox::read(&mut reader, header).unwrap();
    assert_eq!(reader.pos, 11);

    let bytes = boxed(b"abcd", &[1, 2, 3, 4]);
    let mut reader = BoxReader::new(&bytes);
    let header = BoxHeader::read(&mut reader).unwrap();
    let content = BoxContent::read(&mut reader, header).unwrap();
    assert!(matches!(content, BoxContent::Unknown(_)));
    assert_eq!(reader.pos, 12);

    let mut payload = vec![0, 0, 0, 0];
    payload.extend(be32(1));
    payload.extend(boxed(b"avc1", &[0; 8]));
    let bytes = boxed(b"stsd", &payload);
    let mut reader = BoxReader::new(&bytes);
    let header = BoxHeader::read(&mut reader).unwrap();
    VideoSampleDescriptionBox::read(&mut reader, header).unwrap();
    assert_eq!(reader.pos, bytes.len() as u64);
}

#[test]
fn root_scan_counts_every_child() {
    let file = sample_file();
    let mut reader = BoxReader::new(&file);
    let mut iter = ListBox::iter(BoxHeader::root("Mp4 "));
    let first = iter.next(&mut reader).unwrap().unwrap();
    assert_eq!(iter.content_parsed_size, first.header.size);
    let second = iter.next(&mut reader).unwrap().unwrap();
    assert_eq!(iter.content_parsed_size, first.header.size + second.header.size);
    iter.next(&mut reader).unwrap().unwrap();
    let before = (reader.pos, iter.content_parsed_size);
    assert!(iter.next(&mut reader).unwrap().is_none());
    assert_eq!((reader.pos, iter.content_parsed_size), before);
}

#[test]
fn bad_string_moves_past_the_field_and_is_recorded() {
    let bytes = [0xFFu8, 0xFE, 0, 0, 9];
    let mut reader = BoxReader::new(&bytes);
    assert!(matches!(reader.read_string(4), Err(Error::InvalidData(_))));
    assert_eq!(reader.pos, 4);
    assert!(matches!(reader.error, Some(Error::InvalidData(_))));
}

#[test]
fn four_byte_codes_keep_every_byte() {
    let mut p = vec![0, 0, 0, 0];
    p.extend_from_slice(&[0; 4]);
    p.extend_from_slice(b"soun");
    p.extend_from_slice(&[0; 12]);
    p.extend_from_slice(b"Sound\0");
    let bytes = boxed(b"hdlr", &p);
    let mut reader = BoxReader::new(&bytes);
    let header = BoxHeader::read(&mut reader).unwrap();
    let h = mp4kit::HandlerBox::read(&mut reader, header).unwrap();
    assert_eq!(h.component_type, "\0\0\0\0");
    assert_eq!(h.handler, "soun");
    assert_eq!(h.name, "Sound");

    let mut f = b"mp4\0".to_vec();
    f.extend(be32(0));
    f.extend_from_slice(b"is\0\0");
    let bytes = boxed(b"ftyp", &f);
    let mut reader = BoxReader::new(&bytes);
    let header = BoxHeader::read(&mut reader).unwrap();
    let ftyp = mp4kit::FtypBox::read(&mut reader, header).unwrap();
    assert_eq!(ftyp.major_brand, "mp4\0");
    assert_eq!(ftyp.compatible_brands, vec!["is\0\0".to_string()]);
}

#[test]
fn url_location_keeps_every_byte() {
    let bytes = boxed(b"url ", b"\0\0\0\0a\0b");
    let mut reader = BoxReader::new(&bytes);
    let header = BoxHeader::read(&mut reader).unwrap();
    let u = mp4kit::UrlBox::read(&mut reader, header).unwrap();
    assert_eq!(u.location, "a\0b");
}

#[test]
fn sample_description_stops_after_a_wrong_count() {
    let mut b = vec![0, 0, 0, 32];
    b.extend_from_slice(b"stsd");
    b.extend_from_slice(&[0, 0, 0, 0, 0, 0, 0, 2, 0, 0, 0, 16]);
    b.extend_from_slice(b"avc1");
    b.extend_from_slice(&[0; 8]);
    let mut reader = BoxReader::new(&b);
    let header = BoxHeader::read(&mut reader).unwrap();
    assert!(matches!(VideoSampleDescriptionBox::read(&mut reader, header), Err(Error::InvalidData(_))));
    assert_eq!(reader.pos, 16);
}

#[test]
fn sample_description_entry_must_fit() {
    let mut payload = vec![0, 0, 0, 0];
    payload.extend(be32(1));
    payload.extend(be32(40));
    payload.extend_from_slice(b"avc1");
    let mut bytes = boxed(b"stsd", &payload);
    bytes.extend_from_slice(&[0; 40]);
    let mut reader = BoxReader::new(&bytes);
    let header = BoxHeader::read(&mut reader).unwrap();
    assert!(matches!(VideoSampleDescriptionBox::read(&mut reader, header), Err(Error::InvalidData(_))));
    assert_eq!(reader.pos, 16);
}

#[test]
fn failed_decoders_leave_the_cursor() {
    let bytes = boxed(b"mvhd", &mvhd_payload(2));
    let mut reader = BoxReader::new(&bytes);
    let header = BoxHeader::read(&mut reader).unwrap();
    assert!(MvhdBox::read(&mut reader, header).is_err());
    assert_eq!(reader.pos, 8);

    let bytes = boxed(b"ftyp", b"isom\0\0\0");
    let mut reader = BoxReader::new(&bytes);
    let header = BoxHeader::read(&mut reader).unwrap();
    assert!(mp4kit::FtypBox::read(&mut reader, header).is_err());
    assert_eq!(reader.pos, 8);

    let moov = movie(&[boxed(b"trak", &[])]);
    let mut reader = BoxReader::new(&moov);
    let header = BoxHeader::read(&mut reader).unwrap();
    assert!(BoxContent::read(&mut reader, header).is_err());
    assert_eq!(reader.pos, 8);
}
