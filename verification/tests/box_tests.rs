use mp4::boxhead::{BoxHeader, BoxType};
use mp4::sidx::{Segment, SidxBox};

#[test]
fn test_sidx32() {
    let segment = Segment {
        reference_type: false,
        reference_size: 0,
        subsegment_duration: 123000,
        starts_with_sap: false,
        sap_type: 0,
        sap_delta_time: 0,
    };

    let src_box = SidxBox {
        version: 0,
        flags: 0,
        reference_id: 0,
        timescale: 0,
        earliest_presentation_time: 1344,
        first_offset: 212,
        reserved: 0,
        reference_count: 1,
        segments: vec![segment],
    };
    let mut buf = Vec::new();
    src_box.write_box(&mut buf).unwrap();
    assert_eq!(buf.len(), src_box.get_size() as usize);

    let (header, pos) = BoxHeader::read(&buf, 0).unwrap();
    assert_eq!(header.name, BoxType::SidxBox);
    assert_eq!(src_box.get_size(), header.size);

    let (dst_box, _) = SidxBox::read_box(&buf, pos, header.size).unwrap();
    assert_eq!(src_box, dst_box);
}

#[test]
fn test_sidx64() {
    let segment = Segment {
        reference_type: false,
        reference_size: 0,
        subsegment_duration: 123000,
        starts_with_sap: false,
        sap_type: 0,
        sap_delta_time: 0,
    };

    let src_box = SidxBox {
        version: 1,
        flags: 0,
        reference_id: 0,
        timescale: 0,
        earliest_presentation_time: 1344,
        first_offset: 212,
        reserved: 0,
        reference_count: 1,
        segments: vec![segment],
    };
    let mut buf = Vec::new();
    src_box.write_box(&mut buf).unwrap();
    assert_eq!(buf.len(), src_box.get_size() as usize);

    let (header, pos) = BoxHeader::read(&buf, 0).unwrap();
    assert_eq!(header.name, BoxType::SidxBox);
    assert_eq!(src_box.get_size(), header.size);

    let (dst_box, _) = SidxBox::read_box(&buf, pos, header.size).unwrap();
    assert_eq!(src_box, dst_box);
}

#[test]
fn test_ftyp_round_trip() {
    // 32-byte ftyp: major "isom", minor 512, brands isom/iso2/avc1/mp41
    let bytes: Vec<u8> = vec![
        0x00, 0x00, 0x00, 0x20, 0x66, 0x74, 0x79, 0x70, 0x69, 0x73, 0x6f, 0x6d, 0x00, 0x00, 0x02,
        0x00, 0x69, 0x73, 0x6f, 0x6d, 0x69, 0x73, 0x6f, 0x32, 0x61, 0x76, 0x63, 0x31, 0x6d, 0x70,
        0x34, 0x31,
    ];
    let (header, pos) = BoxHeader::read(&bytes, 0).unwrap();
    assert_eq!(header.name, BoxType::FtypBox);
    let (ftyp, _) = mp4::ftyp::FtypBox::read_box(&bytes, pos, header.size).unwrap();
    assert_eq!(&ftyp.major_brand.value, b"isom");
    assert_eq!(ftyp.minor_version, 512);
    assert_eq!(ftyp.compatible_brands.len(), 4);
    assert_eq!(&ftyp.compatible_brands[1].value, b"iso2");
    let mut out = Vec::new();
    ftyp.write_box(&mut out).unwrap();
    assert_eq!(out, bytes);
}

#[test]
fn test_hvc1() {
    let mut hvcc = mp4::hevc::HvcCBox::default();
    hvcc.configuration_version = 1;
    let src_box = mp4::hevc::Hvc1Box {
        data_reference_index: 1,
        width: 320,
        height: 240,
        horizresolution: mp4::types::FixedPointU16::new(0x48),
        vertresolution: mp4::types::FixedPointU16::new(0x48),
        frame_count: 1,
        depth: 24,
        hvcc,
    };
    let mut buf = Vec::new();
    src_box.write_box(&mut buf).unwrap();
    assert_eq!(buf.len(), src_box.get_size() as usize);

    let (header, pos) = BoxHeader::read(&buf, 0).unwrap();
    assert_eq!(header.name, BoxType::Hvc1Box);
    assert_eq!(src_box.get_size(), header.size);

    let (dst_box, _) = mp4::hevc::Hvc1Box::read_box(&buf, pos, header.size).unwrap();
    assert_eq!(src_box, dst_box);
}

#[test]
fn test_opus() {
    let src_box = mp4::opus::OpusBox {
        data_reference_index: 1,
        channel_count: 6,
        sample_size: 16,
        sample_rate: mp4::types::FixedPointU16::new(48000),
        dops_box: Some(mp4::opus::DopsBox {
            version: 0,
            output_channel_count: 6,
            pre_skip: 312,
            input_sample_rate: 48000,
            output_gain: 0,
            channel_mapping_family: 1,
            channel_mapping_table: Some(mp4::opus::ChannelMappingTable {
                stream_count: 4,
                coupled_count: 2,
                channel_mapping: [0, 4, 1, 2, 3, 5].to_vec(),
            }),
        }),
    };
    let mut buf = Vec::new();
    src_box.write_box(&mut buf).unwrap();
    assert_eq!(buf.len(), src_box.get_size() as usize);

    let (header, pos) = BoxHeader::read(&buf, 0).unwrap();
    assert_eq!(header.name, BoxType::OpusBox);
    assert_eq!(src_box.get_size(), header.size);

    let (dst_box, _) = mp4::opus::OpusBox::read_box(&buf, pos, header.size).unwrap();
    assert_eq!(src_box, dst_box);
}

#[test]
fn test_opus_witout_channel_mapping_table() {
    let src_box = mp4::opus::OpusBox {
        data_reference_index: 1,
        channel_count: 6,
        sample_size: 16,
        sample_rate: mp4::types::FixedPointU16::new(48000),
        dops_box: Some(mp4::opus::DopsBox {
            version: 0,
            output_channel_count: 6,
            pre_skip: 312,
            input_sample_rate: 48000,
            output_gain: 0,
            channel_mapping_family: 0,
            channel_mapping_table: None,
        }),
    };
    let mut buf = Vec::new();
    src_box.write_box(&mut buf).unwrap();
    assert_eq!(buf.len(), src_box.get_size() as usize);

    let (header, pos) = BoxHeader::read(&buf, 0).unwrap();
    assert_eq!(header.name, BoxType::OpusBox);
    assert_eq!(src_box.get_size(), header.size);

    let (dst_box, _) = mp4::opus::OpusBox::read_box(&buf, pos, header.size).unwrap();
    assert_eq!(src_box, dst_box);
}

#[test]
fn test_writer_two_tracks() {
    let config = mp4::writer::Mp4Config {
        major_brand: mp4::types::FourCC::from_bytes(*b"isom"),
        minor_version: 512,
        compatible_brands: vec![
            mp4::types::FourCC::from_bytes(*b"isom"),
            mp4::types::FourCC::from_bytes(*b"iso2"),
            mp4::types::FourCC::from_bytes(*b"avc1"),
            mp4::types::FourCC::from_bytes(*b"mp41"),
        ],
        timescale: 1000,
    };
    let mut w = mp4::writer::Mp4Writer::write_start(&config).unwrap();
    let video = mp4::track::TrackConfig {
        track_id: None,
        track_type: mp4::types::TrackType::Video,
        timescale: 30000,
        language: b"und".to_vec(),
        media_conf: mp4::types::MediaConfig::AvcConfig(mp4::types::AvcConfig {
            width: 1280,
            height: 720,
            seq_param_set: vec![0x67, 0x64, 0x00, 0x1f, 0xac],
            pic_param_set: vec![0x68, 0xeb, 0xe3, 0xcb],
        }),
    };
    let audio = mp4::track::TrackConfig {
        track_id: None,
        track_type: mp4::types::TrackType::Audio,
        timescale: 48000,
        language: b"und".to_vec(),
        media_conf: mp4::types::MediaConfig::AacConfig(Default::default()),
    };
    let vid = w.add_track(&video).unwrap();
    let aud = w.add_track(&audio).unwrap();
    assert_eq!(vid, 1);
    assert_eq!(aud, 2);
    for k in 1..=30u32 {
        let s = mp4::types::Mp4Sample {
            start_time: ((k - 1) as u64) * 1001,
            duration: 1001,
            rendering_offset: 0,
            is_sync: k % 30 == 1,
            bytes: vec![0xAB; 100],
        };
        w.write_sample(vid, &s).unwrap();
    }
    for k in 1..=48u32 {
        let s = mp4::types::Mp4Sample {
            start_time: ((k - 1) as u64) * 1024,
            duration: 1024,
            rendering_offset: 0,
            is_sync: true,
            bytes: vec![0xCD; 64],
        };
        w.write_sample(aud, &s).unwrap();
    }
    w.write_end().unwrap();
    let data = w.into_writer();
    // ftyp first, then the patched mdat, then moov
    let (h0, p0) = BoxHeader::read(&data, 0).unwrap();
    assert_eq!(h0.name, BoxType::FtypBox);
    let (h1, _) = BoxHeader::read(&data, (h0.size) as usize).unwrap();
    assert_eq!(h1.name, BoxType::MdatBox);
    let moov_pos = h0.size + h1.size;
    let (h2, _) = BoxHeader::read(&data, moov_pos as usize).unwrap();
    assert_eq!(h2.name, BoxType::MoovBox);
    assert_eq!(moov_pos as usize + h2.size as usize, data.len());
    let _ = p0;
}
