use mp4::stbl::{
    Co64Box, CttsEntry, SttsBox, SttsEntry, StblBox, StcoBox, StscBox, StscEntry, StssBox, StszBox,
};

fn table(
    stts: Vec<SttsEntry>,
    stss: Option<Vec<u32>>,
    stsc: Vec<StscEntry>,
    stsz_fixed: u32,
    sizes: Vec<u32>,
    count: u32,
    stco: Vec<u32>,
) -> StblBox {
    StblBox {
        stsd: Default::default(),
        stts: SttsBox { version: 0, flags: 0, entries: stts },
        ctts: None,
        stss: stss.map(|entries| StssBox { version: 0, flags: 0, entries }),
        stsc: StscBox { version: 0, flags: 0, entries: stsc },
        stsz: StszBox {
            version: 0,
            flags: 0,
            sample_size: stsz_fixed,
            sample_count: count,
            sample_sizes: sizes,
        },
        stco: Some(StcoBox { version: 0, flags: 0, entries: stco }),
        co64: None,
    }
}

#[test]
fn test_stts_decode_times() {
    // runs [(3, 1000), (2, 500)]: decode times 0, 1000, 2000, 3000, 3500
    let t = table(
        vec![
            SttsEntry { sample_count: 3, sample_delta: 1000 },
            SttsEntry { sample_count: 2, sample_delta: 500 },
        ],
        None,
        vec![StscEntry {
            first_chunk: 1,
            samples_per_chunk: 5,
            sample_description_index: 1,
            first_sample: 1,
        }],
        100,
        vec![],
        5,
        vec![1000],
    );
    assert_eq!(t.sample_count(), 5);
    let expected = [0u64, 1000, 2000, 3000, 3500];
    for n in 1..=5u32 {
        let (start, _) = t.sample_time(n).unwrap();
        assert_eq!(start, expected[(n - 1) as usize]);
    }
    assert!(t.sample_time(0).is_err());
    assert!(t.sample_time(6).is_err());
}

#[test]
fn test_stsc_expansion_offsets() {
    // stsc [(1,2,1),(3,3,1)], 4 chunks, fixed size 100, stco [1000,2000,3000,4000]
    let t = table(
        vec![SttsEntry { sample_count: 10, sample_delta: 1 }],
        None,
        vec![
            StscEntry {
                first_chunk: 1,
                samples_per_chunk: 2,
                sample_description_index: 1,
                first_sample: 1,
            },
            StscEntry {
                first_chunk: 3,
                samples_per_chunk: 3,
                sample_description_index: 1,
                first_sample: 5,
            },
        ],
        100,
        vec![],
        10,
        vec![1000, 2000, 3000, 4000],
    );
    assert_eq!(t.sample_offset(5).unwrap(), 3000);
    // chunks 1-2 hold two samples each and chunks 3-4 three each, so
    // sample 8 opens chunk 4 at its base offset
    assert_eq!(t.sample_offset(7).unwrap(), 3200);
    assert_eq!(t.sample_offset(8).unwrap(), 4000);
    assert_eq!(t.sample_offset(1).unwrap(), 1000);
    assert_eq!(t.sample_offset(2).unwrap(), 1100);
}

#[test]
fn test_sync_without_stss() {
    let t = table(
        vec![SttsEntry { sample_count: 4, sample_delta: 10 }],
        None,
        vec![StscEntry {
            first_chunk: 1,
            samples_per_chunk: 4,
            sample_description_index: 1,
            first_sample: 1,
        }],
        7,
        vec![],
        4,
        vec![100],
    );
    for k in 1..=4u32 {
        assert!(t.is_sync(k));
    }
    let with_stss = table(
        vec![SttsEntry { sample_count: 4, sample_delta: 10 }],
        Some(vec![1, 3]),
        vec![StscEntry {
            first_chunk: 1,
            samples_per_chunk: 4,
            sample_description_index: 1,
            first_sample: 1,
        }],
        7,
        vec![],
        4,
        vec![100],
    );
    assert!(with_stss.is_sync(1));
    assert!(!with_stss.is_sync(2));
    assert!(with_stss.is_sync(3));
    assert!(!with_stss.is_sync(4));
}

#[test]
fn test_rendering_offset_runs() {
    let mut t = table(
        vec![SttsEntry { sample_count: 3, sample_delta: 10 }],
        None,
        vec![StscEntry {
            first_chunk: 1,
            samples_per_chunk: 3,
            sample_description_index: 1,
            first_sample: 1,
        }],
        7,
        vec![],
        3,
        vec![100],
    );
    t.ctts = Some(mp4::stbl::CttsBox {
        version: 0,
        flags: 0,
        entries: vec![
            CttsEntry { sample_count: 2, sample_offset: 5 },
            CttsEntry { sample_count: 1, sample_offset: -3 },
        ],
    });
    assert_eq!(t.rendering_offset(1), 5);
    assert_eq!(t.rendering_offset(2), 5);
    assert_eq!(t.rendering_offset(3), -3);
    let _ = Co64Box { version: 0, flags: 0, entries: vec![] };
}
