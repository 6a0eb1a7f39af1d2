//! Incremental per-track construction: samples are appended to the file
//! buffer while the matching sample tables grow, and `write_end` emits
//! the finished `trak`.

use vstd::prelude::*;

use crate::error::Error;
use crate::moov::EdtsBox;
use crate::moov::ElstBox;
use crate::moov::ElstEntry;
use crate::moov::HdlrBox;
use crate::moov::MdhdBox;
use crate::moov::MdiaBox;
use crate::moov::MinfBox;
use crate::moov::SmhdBox;
use crate::moov::TkhdBox;
use crate::moov::TrakBox;
use crate::moov::VmhdBox;
use crate::moov::DinfBox;
use crate::stbl::Co64Box;
use crate::stbl::StblBox;
use crate::stbl::StcoBox;
use crate::stbl::StscBox;
use crate::stbl::StscEntry;
use crate::stbl::StssBox;
use crate::stbl::SttsBox;
use crate::stbl::SttsEntry;
use crate::stbl::StszBox;
use crate::stbl::CttsBox;
use crate::stbl::CttsEntry;
use crate::stsd::StsdBox;
use crate::types::FixedPointU16;
use crate::types::FixedPointU8;
use crate::types::MediaConfig;
use crate::types::Mp4Sample;
use crate::types::TrackType;

verus! {

/// Everything a new track is created from.
#[derive(Debug, Clone, PartialEq, Eq)]
pub struct TrackConfig {
    pub track_id: Option<u32>,
    pub track_type: TrackType,
    pub timescale: u32,
    /// The ISO-639-2/T language code, three lowercase letters.
    pub language: Vec<u8>,
    pub media_conf: MediaConfig,
}

/// The growing state of one track while samples are appended.
#[derive(Debug, Clone, PartialEq, Eq)]
pub struct Mp4TrackWriter {
    pub track_id: u32,
    pub track_type: TrackType,
    pub timescale: u32,
    pub language: u16,
    pub width: u16,
    pub height: u16,
    pub media_conf: MediaConfig,
    pub stts_runs: Vec<SttsEntry>,
    pub ctts_runs: Vec<CttsEntry>,
    pub have_ctts: bool,
    pub stss_list: Vec<u32>,
    pub all_sync: bool,
    pub sample_sizes: Vec<u32>,
    pub chunk_offsets: Vec<u64>,
    pub chunk_sample_counts: Vec<u32>,
    pub current_chunk_offset: u64,
    pub current_chunk_count: u32,
    pub last_write_end: u64,
    pub sample_count: u32,
    pub duration_in_media: u64,
    pub elst: Option<ElstBox>,
}


/// The run-length merge of one decode delta into the `stts` runs: the
/// last run grows when it has the same delta (and room), otherwise a new
/// run of one sample starts.
pub open spec fn spec_stts_push(s: Seq<SttsEntry>, d: u32) -> Seq<SttsEntry> {
    if s.len() > 0 && s.last().sample_delta == d && s.last().sample_count < u32::MAX {
        s.update(
            s.len() - 1,
            SttsEntry { sample_count: (s.last().sample_count + 1) as u32, sample_delta: d },
        )
    } else {
        s.push(SttsEntry { sample_count: 1, sample_delta: d })
    }
}

/// The run-length merge of one composition offset into the `ctts` runs.
pub open spec fn spec_ctts_push(s: Seq<CttsEntry>, off: i32) -> Seq<CttsEntry> {
    if s.len() > 0 && s.last().sample_offset == off && s.last().sample_count < u32::MAX {
        s.update(
            s.len() - 1,
            CttsEntry { sample_count: (s.last().sample_count + 1) as u32, sample_offset: off },
        )
    } else {
        s.push(CttsEntry { sample_count: 1, sample_offset: off })
    }
}

/// Merging one delta covers exactly one more sample.
pub proof fn lemma_stts_push_total(s: Seq<SttsEntry>, d: u32)
    ensures
        crate::stbl::stts_total(spec_stts_push(s, d)) == crate::stbl::stts_total(s) + 1,
    decreases s.len(),
{
    if s.len() > 0 && s.last().sample_delta == d && s.last().sample_count < u32::MAX {
        lemma_stts_total_update_last(s, (s.last().sample_count + 1) as u32, d);
    } else {
        lemma_stts_total_push(s, SttsEntry { sample_count: 1, sample_delta: d });
    }
}

proof fn lemma_stts_total_push(s: Seq<SttsEntry>, e: SttsEntry)
    ensures
        crate::stbl::stts_total(s.push(e)) == crate::stbl::stts_total(s) + e.sample_count,
    decreases s.len(),
{
    if s.len() == 0 {
        assert(s.push(e).len() == 1);
        assert(s.push(e).first() == e);
        assert(s.push(e).drop_first() =~= Seq::<SttsEntry>::empty());
        assert(crate::stbl::stts_total(Seq::<SttsEntry>::empty()) == 0);
        assert(crate::stbl::stts_total(s) == 0);
    } else {
        assert(s.push(e).drop_first() =~= s.drop_first().push(e));
        assert(s.push(e).first() == s.first());
        lemma_stts_total_push(s.drop_first(), e);
    }
}

proof fn lemma_stts_total_update_last(s: Seq<SttsEntry>, c: u32, d: u32)
    requires
        s.len() > 0,
    ensures
        crate::stbl::stts_total(s.update(s.len() - 1, SttsEntry { sample_count: c, sample_delta: d }))
            == crate::stbl::stts_total(s) - s.last().sample_count + c,
    decreases s.len(),
{
    let e = SttsEntry { sample_count: c, sample_delta: d };
    if s.len() == 1 {
        assert(s.update(0int, e).first() == e);
        assert(s.update(0int, e).drop_first() =~= Seq::<SttsEntry>::empty());
        assert(s.drop_first() =~= Seq::<SttsEntry>::empty());
    } else {
        assert(s.update(s.len() - 1, e).first() == s.first());
        assert(s.update(s.len() - 1, e).drop_first() =~= s.drop_first().update(
            s.drop_first().len() - 1,
            e,
        ));
        lemma_stts_total_update_last(s.drop_first(), c, d);
    }
}

/// The sum of the per-chunk sample counts.
pub open spec fn spec_counts_total(s: Seq<u32>) -> int
    decreases s.len(),
{
    if s.len() == 0 {
        0
    } else {
        spec_counts_total(s.drop_last()) + s.last()
    }
}

impl Mp4TrackWriter {
    /// The bookkeeping invariant of a track in progress: the decode runs
    /// and the size table cover exactly the appended samples, and so do
    /// the closed chunks together with the open one; every closed chunk
    /// holds a sample; the sync list is strictly increasing, names
    /// appended samples only, and lists all of them while every sample so
    /// far was a sync sample.
    pub open spec fn inv(&self) -> bool {
        &&& crate::stbl::stts_total(self.stts_runs@) == self.sample_count
        &&& self.sample_sizes@.len() == self.sample_count
        &&& self.chunk_offsets@.len() == self.chunk_sample_counts@.len()
        &&& spec_counts_total(self.chunk_sample_counts@) + self.current_chunk_count
            == self.sample_count
        &&& forall|i: int|
            0 <= i < self.chunk_sample_counts@.len() ==> #[trigger] self.chunk_sample_counts@[i]
                >= 1
        &&& forall|i: int|
            0 <= i < self.stss_list@.len() ==> 1 <= #[trigger] self.stss_list@[i]
                <= self.sample_count
        &&& forall|i: int|
            0 <= i < self.stss_list@.len() - 1 ==> self.stss_list@[i]
                < #[trigger] self.stss_list@[i + 1]
        &&& (self.all_sync ==> self.stss_list@.len() == self.sample_count)
    }

    /// Whether one more sample fits the counters and tables.
    pub open spec fn can_append(&self, data_len: int, sample: Mp4Sample) -> bool {
        &&& self.sample_count < u32::MAX
        &&& self.duration_in_media <= u64::MAX - sample.duration
        &&& self.sample_sizes@.len() < 0xFFFFFFF0
        &&& self.stts_runs@.len() < 0xFFFFFF0
        &&& self.stss_list@.len() < 0xFFFFFF0
        &&& self.ctts_runs@.len() < 0xFFFFFF0
        &&& self.chunk_offsets@.len() < 0xFFFFFF0
        &&& sample.bytes@.len() <= u32::MAX
        &&& data_len + sample.bytes@.len() <= u64::MAX
    }
}



/// The one-sample bookkeeping step of `write_sample`: `w1` is `w0` with
/// the sample's size appended, its decode delta and composition offset
/// run-length merged, the sync list extended when the sample is a sync
/// sample, and the chunk grown when the write at `data_len` was
/// contiguous with the previous one, else closed and reopened there.
pub open spec fn appended(
    w0: Mp4TrackWriter,
    w1: Mp4TrackWriter,
    data_len: int,
    sample: Mp4Sample,
) -> bool {
    &&& w1.sample_count == w0.sample_count + 1
    &&& w1.duration_in_media == w0.duration_in_media + sample.duration
    &&& w1.sample_sizes@ == w0.sample_sizes@.push(sample.bytes@.len() as u32)
    &&& w1.stts_runs@ == spec_stts_push(w0.stts_runs@, sample.duration)
    &&& w1.ctts_runs@ == spec_ctts_push(w0.ctts_runs@, sample.rendering_offset)
    &&& w1.have_ctts == (w0.have_ctts || sample.rendering_offset != 0)
    &&& w1.stss_list@ == (if sample.is_sync {
        w0.stss_list@.push((w0.sample_count + 1) as u32)
    } else {
        w0.stss_list@
    })
    &&& w1.all_sync == (w0.all_sync && sample.is_sync)
    &&& (if w0.current_chunk_count > 0 && data_len == w0.last_write_end && w0.current_chunk_count
        < u32::MAX {
        &&& w1.chunk_offsets@ == w0.chunk_offsets@
        &&& w1.chunk_sample_counts@ == w0.chunk_sample_counts@
        &&& w1.current_chunk_offset == w0.current_chunk_offset
        &&& w1.current_chunk_count == w0.current_chunk_count + 1
    } else {
        &&& w1.chunk_offsets@ == (if w0.current_chunk_count > 0 {
            w0.chunk_offsets@.push(w0.current_chunk_offset)
        } else {
            w0.chunk_offsets@
        })
        &&& w1.chunk_sample_counts@ == (if w0.current_chunk_count > 0 {
            w0.chunk_sample_counts@.push(w0.current_chunk_count)
        } else {
            w0.chunk_sample_counts@
        })
        &&& w1.current_chunk_offset == data_len
        &&& w1.current_chunk_count == 1
    })
    &&& w1.last_write_end == data_len + sample.bytes@.len()
    &&& w1.track_id == w0.track_id
    &&& w1.track_type == w0.track_type
    &&& w1.timescale == w0.timescale
    &&& w1.language == w0.language
    &&& w1.width == w0.width
    &&& w1.height == w0.height
    &&& w1.media_conf == w0.media_conf
    &&& w1.elst == w0.elst
}

/// The chunk offsets of a finished track: the closed chunks followed by
/// the still-open one, if any.
pub open spec fn spec_final_offsets(w: Mp4TrackWriter) -> Seq<u64> {
    if w.current_chunk_count > 0 {
        w.chunk_offsets@.push(w.current_chunk_offset)
    } else {
        w.chunk_offsets@
    }
}

/// The sample description `write_end` builds for a media configuration:
/// exactly the entry of the configuration's codec is set, and it carries
/// the configured fields (with the documented defaults for unset ones).
pub open spec fn stsd_matches(s: StsdBox, conf: MediaConfig) -> bool {
    &&& s.version == 0 && s.flags == 0
    &&& (s.avc1 is Some <==> conf is AvcConfig)
    &&& (s.hev1 is Some <==> (conf matches MediaConfig::HevcConfig(c) && !c.use_hvc1))
    &&& (s.hvc1 is Some <==> (conf matches MediaConfig::HevcConfig(c) && c.use_hvc1))
    &&& (s.vp09 is Some <==> conf is Vp9Config)
    &&& (s.mp4a is Some <==> conf is AacConfig)
    &&& (s.tx3g is Some <==> conf is TtxtConfig)
    &&& (s.opus is Some <==> conf is OpusConfig)
    &&& (match conf {
        MediaConfig::AvcConfig(c) => s.avc1 matches Some(b) && {
            &&& b.data_reference_index == 1
            &&& b.width == c.width
            &&& b.height == c.height
            &&& b.frame_count == 1
            &&& b.depth == 0x0018
            &&& b.avcc.configuration_version == 1
            &&& b.avcc.avc_profile_indication == c.seq_param_set@[1]
            &&& b.avcc.profile_compatibility == c.seq_param_set@[2]
            &&& b.avcc.avc_level_indication == c.seq_param_set@[3]
            &&& b.avcc.sequence_parameter_sets@.len() == 1
            &&& b.avcc.sequence_parameter_sets@[0].bytes@ == c.seq_param_set@
            &&& b.avcc.picture_parameter_sets@.len() == 1
            &&& b.avcc.picture_parameter_sets@[0].bytes@ == c.pic_param_set@
        },
        MediaConfig::HevcConfig(c) => {
            let b = if c.use_hvc1 {
                s.hvc1.unwrap()
            } else {
                s.hev1.unwrap().entry
            };
            &&& b.data_reference_index == 1
            &&& b.width == c.width.unwrap_or(0u16)
            &&& b.height == c.height.unwrap_or(0u16)
            &&& b.hvcc.configuration_version == c.configuration_version.unwrap_or(1u8)
            &&& b.hvcc.general_profile_idc == c.general_profile_idc.unwrap_or(1u8)
            &&& b.hvcc.general_level_idc == c.general_level_idc.unwrap_or(93u8)
            &&& b.hvcc.length_size_minus_one == c.length_size_minus_one.unwrap_or(3u8)
            &&& (c.arrays matches Some(a) ==> b.hvcc@.arrays == a@.map_values(
                |x: crate::hevc::HvcCArray| x@,
            ))
            &&& (c.arrays is None ==> b.hvcc.arrays@ == Seq::<crate::hevc::HvcCArray>::empty())
        },
        MediaConfig::Vp9Config(c) => s.vp09 matches Some(b) && {
            &&& b.data_reference_index == 1
            &&& b.width == c.width
            &&& b.height == c.height
            &&& b.vpcc.version == 1
            &&& b.vpcc.profile == c.profile
            &&& b.vpcc.level == c.level
            &&& b.vpcc.bit_depth == c.bit_depth
            &&& b.vpcc.chroma_subsampling == c.chroma_subsampling
            &&& b.vpcc.video_full_range_flag == c.video_full_range_flag
        },
        MediaConfig::AacConfig(c) => s.mp4a matches Some(b) && {
            &&& b.data_reference_index == 1
            &&& b.channelcount == c.chan_conf.spec_value()
            &&& b.samplesize == c.samplesize
            &&& b.samplerate.raw == ((c.freq_index.spec_freq() as u16) as u32) * 0x10000
            &&& b.qt_bytes is None
            &&& (b.esds matches Some(e) && {
                &&& e.es_desc.dec_config.avg_bitrate == c.bitrate
                &&& e.es_desc.dec_config.max_bitrate == c.bitrate
                &&& e.es_desc.dec_config.dec_specific.profile == c.profile.spec_value()
                &&& e.es_desc.dec_config.dec_specific.freq_index == c.freq_index.spec_value()
                &&& e.es_desc.dec_config.dec_specific.chan_conf == c.chan_conf.spec_value()
                &&& e.qt_bytes is None
            })
        },
        MediaConfig::TtxtConfig(_) => s.tx3g matches Some(b) && {
            &&& b.data_reference_index == 1
            &&& b.style_record.font_id == 1
        },
        MediaConfig::OpusConfig(c) => s.opus matches Some(b) && {
            &&& b.data_reference_index == 1
            &&& b.channel_count == c.chan_conf.spec_value()
            &&& b.sample_size == 16
            &&& (b.dops_box matches Some(d) && {
                &&& d.output_channel_count == c.chan_conf.spec_value()
                &&& d.pre_skip == c.pre_skip
                &&& d.input_sample_rate == c.freq_index.spec_freq()
                &&& d.channel_mapping_family == 0
            })
        },
    })
}

/// What `write_end` promises of the finished `trak`, relative to the
/// track state it closed: headers carry the identifier, timescales and
/// converted durations; the sample tables are exactly the accumulated
/// runs, sizes, sync list and composition offsets; and the chunk offsets
/// take the 64-bit table exactly when one of them needs it.
pub open spec fn trak_matches(t: TrakBox, w: Mp4TrackWriter, movie_timescale: u32) -> bool {
    let offs = spec_final_offsets(w);
    let stbl = t.mdia.minf.stbl;
    &&& t.tkhd.track_id == w.track_id
    &&& t.tkhd.flags == crate::moov::TRACK_FLAG_DEFAULT
    &&& t.tkhd.duration == spec_media_to_movie(w.duration_in_media, w.timescale, movie_timescale)
    &&& (t.tkhd.version == 1 <==> t.tkhd.duration > u32::MAX)
    &&& t.tkhd.width.raw == (w.width as int) * 0x10000
    &&& t.tkhd.height.raw == (w.height as int) * 0x10000
    &&& t.mdia.mdhd.timescale == w.timescale
    &&& t.mdia.mdhd.duration == w.duration_in_media
    &&& (t.mdia.mdhd.version == 1 <==> w.duration_in_media > u32::MAX)
    &&& t.mdia.mdhd.language == w.language
    &&& t.mdia.hdlr.handler_type.value == w.track_type.spec_fourcc()
    &&& t.mdia.hdlr.name@ == w.track_type.spec_handler_name()
    &&& stbl.stts.entries@ == w.stts_runs@
    &&& crate::stbl::stts_total(stbl.stts.entries@) == w.sample_count
    &&& stsd_matches(stbl.stsd, w.media_conf)
    &&& stbl.stsc.spec_wf(offs.len() as int)
    &&& stbl.stsc.spec_total(offs.len() as int) == w.sample_count
    &&& (forall|i: int|
        0 <= i < stbl.stsc.entries@.len() ==> (#[trigger] stbl.stsc.entries@[i]).sample_description_index
            == 1)
    &&& stbl.stsz.sample_size == 0
    &&& stbl.stsz.sample_count == w.sample_count
    &&& stbl.stsz.sample_sizes@ == w.sample_sizes@
    &&& (stbl.stss is Some <==> !w.all_sync)
    &&& (stbl.stss matches Some(x) ==> x.entries@ == w.stss_list@)
    &&& (stbl.ctts is Some <==> w.have_ctts)
    &&& (stbl.ctts matches Some(x) ==> x.entries@ == w.ctts_runs@)
    &&& (stbl.co64 is Some <==> exists|k: int| 0 <= k < offs.len() && #[trigger] offs[k] > u32::MAX)
    &&& (stbl.stco is Some <==> stbl.co64 is None)
    &&& (stbl.co64 matches Some(x) ==> x.entries@ == offs)
    &&& (stbl.stco matches Some(x) ==> x.entries@.len() == offs.len() && (forall|k: int|
        0 <= k < offs.len() ==> #[trigger] x.entries@[k] == offs[k]))
    &&& (t.mdia.minf.vmhd is Some <==> w.track_type is Video)
    &&& (t.mdia.minf.smhd is Some <==> w.track_type is Audio)
    &&& (match (t.edts, w.elst) {
        (Some(e), Some(l)) => e.elst matches Some(el) && el.entries@ == l.entries@,
        (None, None) => true,
        _ => false,
    })
}

impl Mp4TrackWriter {
    /// Creates the track state. The language is packed when the code is
    /// three lowercase letters, and falls back to the undetermined code
    /// otherwise; dimensions come from the video configurations.
    pub fn new(track_id: u32, config: &TrackConfig) -> (r: Result<Mp4TrackWriter, Error>)
        ensures
            r is Ok,
            r matches Ok(w) ==> w.inv(),
            r matches Ok(w) ==> {
                &&& w.track_id == track_id
                &&& w.track_type == config.track_type
                &&& w.timescale == config.timescale
                &&& crate::types::spec_media_conf_eq(w.media_conf, config.media_conf)
                &&& w.language == (if config.language@.len() == 3 && config.language@[0] >= 0x61
                    && config.language@[1] >= 0x61 && config.language@[2] >= 0x61 {
                    crate::moov::spec_pack_language(
                        config.language@[0],
                        config.language@[1],
                        config.language@[2],
                    )
                } else {
                    0x55C4u16
                })
                &&& (w.width, w.height) == (match config.media_conf {
                    MediaConfig::AvcConfig(c) => (c.width, c.height),
                    MediaConfig::HevcConfig(c) => (
                        c.width.unwrap_or(0u16),
                        c.height.unwrap_or(0u16),
                    ),
                    MediaConfig::Vp9Config(c) => (c.width, c.height),
                    MediaConfig::AacConfig(_) => (0u16, 0u16),
                    MediaConfig::TtxtConfig(_) => (0u16, 0u16),
                    MediaConfig::OpusConfig(_) => (0u16, 0u16),
                })
                &&& w.sample_count == 0
                &&& w.duration_in_media == 0
                &&& w.stts_runs@.len() == 0
                &&& w.ctts_runs@.len() == 0
                &&& !w.have_ctts
                &&& w.stss_list@.len() == 0
                &&& w.all_sync
                &&& w.sample_sizes@.len() == 0
                &&& w.chunk_offsets@.len() == 0
                &&& w.chunk_sample_counts@.len() == 0
                &&& w.current_chunk_count == 0
                &&& w.elst is None
            },
    {
        let mut language: u16 = 0x55C4;  // "und"
        if config.language.len() == 3 {
            let c0 = config.language[0];
            let c1 = config.language[1];
            let c2 = config.language[2];
            if c0 >= 0x61 && c1 >= 0x61 && c2 >= 0x61 {
                language = crate::moov::pack_language(c0, c1, c2);
            }
        }
        let (width, height): (u16, u16) = match &config.media_conf {
            MediaConfig::AvcConfig(c) => (c.width, c.height),
            MediaConfig::HevcConfig(c) => (
                crate::hevc::unwrap_or_u16(&c.width, 0),
                crate::hevc::unwrap_or_u16(&c.height, 0),
            ),
            MediaConfig::Vp9Config(c) => (c.width, c.height),
            MediaConfig::AacConfig(_) => (0, 0),
            MediaConfig::TtxtConfig(_) => (0, 0),
            MediaConfig::OpusConfig(_) => (0, 0),
        };
        Ok(
            Mp4TrackWriter {
                track_id,
                track_type: config.track_type,
                timescale: config.timescale,
                language,
                width,
                height,
                media_conf: crate::types::clone_media_conf(&config.media_conf),
                stts_runs: Vec::new(),
                ctts_runs: Vec::new(),
                have_ctts: false,
                stss_list: Vec::new(),
                all_sync: true,
                sample_sizes: Vec::new(),
                chunk_offsets: Vec::new(),
                chunk_sample_counts: Vec::new(),
                current_chunk_offset: 0,
                current_chunk_count: 0,
                last_write_end: 0,
                sample_count: 0,
                duration_in_media: 0,
                elst: None,
            },
        )
    }

    /// Appends one sample: its bytes go to the end of `data`, the tables
    /// grow by one sample, and the returned value is the track duration
    /// converted to the movie timescale.
    #[verifier::loop_isolation(false)]
    #[verifier::rlimit(100)]
    pub fn write_sample(&mut self, data: &mut Vec<u8>, sample: &Mp4Sample, movie_timescale: u32)
        -> (r: Result<u64, Error>)
        requires
            old(self).inv(),
        ensures
            final(self).inv(),
            old(self).can_append(old(data)@.len() as int, *sample) ==> r is Ok,
            r is Err ==> final(data)@ == old(data)@ && *final(self) == *old(self),
            final(self).track_id == old(self).track_id,
            r matches Ok(track_dur) ==> final(data)@ == old(data)@ + sample.bytes@ && appended(
                *old(self),
                *final(self),
                old(data)@.len() as int,
                *sample,
            ) && track_dur == spec_media_to_movie(
                final(self).duration_in_media,
                old(self).timescale,
                movie_timescale,
            ),
    {
        if self.sample_count == u32::MAX {
            return Err(Error::InvalidData("too many samples"));
        }
        if self.duration_in_media > u64::MAX - sample.duration as u64 {
            return Err(Error::InvalidData("track duration overflow"));
        }
        if self.sample_sizes.len() >= 0xFFFFFFF0 || self.stts_runs.len() >= 0xFFFFFF0
            || self.stss_list.len() >= 0xFFFFFF0 || self.ctts_runs.len() >= 0xFFFFFF0
            || self.chunk_offsets.len() >= 0xFFFFFF0 {
            return Err(Error::InvalidData("table overflow"));
        }
        if sample.bytes.len() > u32::MAX as usize {
            return Err(Error::InvalidData("sample too large"));
        }
        if data.len() as u64 > u64::MAX - sample.bytes.len() as u64 {
            return Err(Error::InvalidData("file too large"));
        }
        let offset = data.len() as u64;
        crate::bigend::put_bytes(data, &sample.bytes);

        // chunk policy: grow the current chunk only when this write is
        // contiguous with the previous one; otherwise close the chunk.
        if self.current_chunk_count > 0 && offset == self.last_write_end
            && self.current_chunk_count < u32::MAX {
            self.current_chunk_count = self.current_chunk_count + 1;
        } else {
            if self.current_chunk_count > 0 {
                self.chunk_offsets.push(self.current_chunk_offset);
                self.chunk_sample_counts.push(self.current_chunk_count);
            }
            self.current_chunk_offset = offset;
            self.current_chunk_count = 1;
        }
        self.last_write_end = offset + sample.bytes.len() as u64;

        self.sample_sizes.push(sample.bytes.len() as u32);

        // run-length merge of equal decode deltas
        let runs = self.stts_runs.len();
        let mut merged = false;
        if runs > 0 {
            let last = self.stts_runs[runs - 1];
            if last.sample_delta == sample.duration && last.sample_count < u32::MAX {
                self.stts_runs[runs - 1] = SttsEntry {
                    sample_count: last.sample_count + 1,
                    sample_delta: last.sample_delta,
                };
                merged = true;
            }
        }
        if !merged {
            self.stts_runs.push(
                SttsEntry { sample_count: 1, sample_delta: sample.duration },
            );
        }

        // composition offsets, merged the same way
        if sample.rendering_offset != 0 {
            self.have_ctts = true;
        }
        let cruns = self.ctts_runs.len();
        let mut cmerged = false;
        if cruns > 0 {
            let last = self.ctts_runs[cruns - 1];
            if last.sample_offset == sample.rendering_offset && last.sample_count < u32::MAX {
                self.ctts_runs[cruns - 1] = CttsEntry {
                    sample_count: last.sample_count + 1,
                    sample_offset: last.sample_offset,
                };
                cmerged = true;
            }
        }
        if !cmerged {
            self.ctts_runs.push(
                CttsEntry { sample_count: 1, sample_offset: sample.rendering_offset },
            );
        }

        let n = self.sample_count + 1;
        if sample.is_sync {
            self.stss_list.push(n);
        } else {
            self.all_sync = false;
        }
        self.sample_count = n;
        self.duration_in_media = self.duration_in_media + sample.duration as u64;
        proof {
            lemma_stts_push_total(old(self).stts_runs@, sample.duration);
            assert(self.stts_runs@ =~= spec_stts_push(old(self).stts_runs@, sample.duration));
            assert(self.ctts_runs@ =~= spec_ctts_push(
                old(self).ctts_runs@,
                sample.rendering_offset,
            ));
            if !(old(self).current_chunk_count > 0 && old(data)@.len() == old(
                self,
            ).last_write_end && old(self).current_chunk_count < u32::MAX) {
                if old(self).current_chunk_count > 0 {
                    assert(self.chunk_sample_counts@.drop_last()
                        =~= old(self).chunk_sample_counts@);
                }
            }
        }

        let track_dur = media_to_movie(self.duration_in_media, self.timescale, movie_timescale);
        Ok(track_dur)
    }

    /// Records a single-entry version-0 edit list: the segment duration
    /// (already in movie timescale) and the media time obtained by
    /// rescaling the microsecond offset into the media timescale.
    pub fn update_edit_list(&mut self, offset: u64, duration: u64) -> (r: Result<(), Error>)
        ensures
            r is Ok ==> (final(self).elst matches Some(e) && e.version == 0 && e.flags == 0
                && e.entries@.len() == 1 && e.entries@[0] == (ElstEntry {
                segment_duration: duration,
                media_time: (spec_media_to_movie(offset, 1000000u32, old(self).timescale)) as u64,
                media_rate: 1u16,
                media_rate_fraction: 0u16,
            })),
            duration <= u32::MAX && spec_media_to_movie(offset, 1000000u32, old(self).timescale)
                <= u32::MAX ==> r is Ok,
            r is Err ==> *final(self) == *old(self),
            *final(self) == (Mp4TrackWriter { elst: final(self).elst, ..*old(self) }),
    {
        if duration > u32::MAX as u64 {
            return Err(Error::InvalidData("edit duration too large"));
        }
        let media_time = media_to_movie(offset, 1000000, self.timescale);
        if media_time > u32::MAX as u64 {
            return Err(Error::InvalidData("edit offset too large"));
        }
        let mut entries: Vec<ElstEntry> = Vec::new();
        entries.push(
            ElstEntry {
                segment_duration: duration,
                media_time,
                media_rate: 1,
                media_rate_fraction: 0,
            },
        );
        self.elst = Some(ElstBox { version: 0, flags: 0, entries });
        Ok(())
    }

    /// Closes the last chunk and assembles the finished `trak`. The
    /// chunk offsets become a `co64` table exactly when one of them does
    /// not fit in 32 bits.
    #[verifier::loop_isolation(false)]
    #[verifier::rlimit(100)]
    #[verifier::spinoff_prover]
    pub fn write_end(&mut self, movie_timescale: u32) -> (r: Result<TrakBox, Error>)
        requires
            old(self).inv(),
        ensures
            final(self).inv(),
            r matches Ok(t) ==> trak_matches(t, *old(self), movie_timescale),
            final(self).track_id == old(self).track_id,
    {
        if self.current_chunk_count > 0 {
            if self.chunk_offsets.len() >= 0xFFFFFF0 {
                return Err(Error::InvalidData("table overflow"));
            }
            self.chunk_offsets.push(self.current_chunk_offset);
            self.chunk_sample_counts.push(self.current_chunk_count);
            self.current_chunk_count = 0;
            proof {
                assert(self.chunk_sample_counts@.drop_last() =~= old(self).chunk_sample_counts@);
                assert(self.chunk_sample_counts@.last() == old(self).current_chunk_count);
            }
        }
        if self.chunk_sample_counts.len() >= u32::MAX as usize {
            return Err(Error::InvalidData("table overflow"));
        }
        proof {
            assert(self.chunk_offsets@ =~= spec_final_offsets(*old(self)));
        }
        let stsd = match build_stsd(&self.media_conf) {
            Ok(s) => s,
            Err(e) => { return Err(e); },
        };
        // sample-to-chunk runs from the per-chunk counts, merged
        let ghost csc = self.chunk_sample_counts@;
        let mut stsc_entries: Vec<StscEntry> = Vec::new();
        let mut i: usize = 0;
        let mut first_sample: u32 = 1;
        while i < self.chunk_sample_counts.len()
            invariant
                i <= self.chunk_sample_counts@.len(),
                self.chunk_sample_counts@.len() < u32::MAX,
                csc == self.chunk_sample_counts@,
                forall|k: int| 0 <= k < csc.len() ==> #[trigger] csc[k] >= 1,
                first_sample == 1 + spec_counts_total(csc.take(i as int)),
                stsc_entries@.len() == 0 <==> i == 0,
                i > 0 ==> stsc_entries@[0].first_chunk == 1 && stsc_entries@[0].first_sample == 1,
                forall|j: int|
                    0 <= j < stsc_entries@.len() - 1 ==> stsc_entries@[j].first_chunk
                        < #[trigger] stsc_entries@[j + 1].first_chunk,
                forall|j: int|
                    0 <= j < stsc_entries@.len() ==> (#[trigger] stsc_entries@[j]).samples_per_chunk
                        >= 1,
                forall|j: int|
                    0 <= j < stsc_entries@.len() ==> (#[trigger] stsc_entries@[j]).sample_description_index
                        == 1,
                forall|j: int|
                    0 <= j < stsc_entries@.len() - 1 ==> (#[trigger] stsc_entries@[j
                        + 1]).first_sample == stsc_entries@[j].first_sample + (stsc_entries@[j
                        + 1].first_chunk - stsc_entries@[j].first_chunk) * stsc_entries@[
                        j].samples_per_chunk,
                i > 0 ==> stsc_entries@.last().first_chunk <= i,
                i > 0 ==> stsc_entries@.last().samples_per_chunk == csc[i - 1],
                i > 0 ==> first_sample == stsc_entries@.last().first_sample + (i + 1
                    - stsc_entries@.last().first_chunk) * stsc_entries@.last().samples_per_chunk,
            decreases self.chunk_sample_counts@.len() - i,
        {
            let spc = self.chunk_sample_counts[i];
            let n = stsc_entries.len();
            let mut merged = false;
            if n > 0 {
                let last = stsc_entries[n - 1];
                if last.samples_per_chunk == spc {
                    merged = true;
                }
            }
            let ghost pre = stsc_entries@;
            if !merged {
                if i >= u32::MAX as usize {
                    return Err(Error::InvalidData("table overflow"));
                }
                stsc_entries.push(
                    StscEntry {
                        first_chunk: (i as u32) + 1,
                        samples_per_chunk: spc,
                        sample_description_index: 1,
                        first_sample,
                    },
                );
            }
            if first_sample > u32::MAX - spc {
                return Err(Error::InvalidData("table overflow"));
            }
            proof {
                assert(csc.take(i + 1).drop_last() =~= csc.take(i as int));
                assert(csc.take(i + 1).last() == csc[i as int]);
                let e = stsc_entries@.last();
                if merged {
                    assert(stsc_entries@ == pre);
                    let fc = e.first_chunk as int;
                    let s = e.samples_per_chunk as int;
                    assert((i + 1 - fc) * s + s == (i + 2 - fc) * s) by (nonlinear_arith);
                } else {
                    assert(stsc_entries@.drop_last() == pre);
                    if i > 0 {
                        let p = pre.last();
                        assert(stsc_entries@[stsc_entries@.len() - 2] == p);
                        assert(forall|j: int|
                            0 <= j < pre.len() ==> stsc_entries@[j] == #[trigger] pre[j]);
                    }
                    assert((i + 1 + 1 - (i + 1)) * (spc as int) == spc) by (nonlinear_arith);
                }
            }
            first_sample = first_sample + spc;
            i = i + 1;
        }
        proof {
            assert(csc.take(csc.len() as int) =~= csc);
        }
        // 32-bit offsets unless one does not fit
        let mut needs_co64 = false;
        let mut j: usize = 0;
        while j < self.chunk_offsets.len()
            invariant
                j <= self.chunk_offsets@.len(),
                needs_co64 <==> exists|k: int|
                    0 <= k < j && #[trigger] self.chunk_offsets@[k] > u32::MAX,
            decreases self.chunk_offsets@.len() - j,
        {
            if self.chunk_offsets[j] > u32::MAX as u64 {
                needs_co64 = true;
            }
            j = j + 1;
        }
        let mut stco: Option<StcoBox> = None;
        let mut co64: Option<Co64Box> = None;
        if needs_co64 {
            let mut entries: Vec<u64> = Vec::new();
            let mut k: usize = 0;
            while k < self.chunk_offsets.len()
                invariant
                    k <= self.chunk_offsets@.len(),
                    entries@ == self.chunk_offsets@.take(k as int),
                decreases self.chunk_offsets@.len() - k,
            {
                entries.push(self.chunk_offsets[k]);
                assert(entries@ =~= self.chunk_offsets@.take(k + 1));
                k = k + 1;
            }
            proof {
                assert(entries@ =~= self.chunk_offsets@);
            }
            co64 = Some(Co64Box { version: 0, flags: 0, entries });
        } else {
            let mut entries: Vec<u32> = Vec::new();
            let mut k: usize = 0;
            while k < self.chunk_offsets.len()
                invariant
                    k <= self.chunk_offsets@.len(),
                    entries@.len() == k,
                    forall|m: int| 0 <= m < k ==> #[trigger] entries@[m] == self.chunk_offsets@[m],
                    forall|m: int| 0 <= m < self.chunk_offsets@.len() ==> !(#[trigger] self
                        .chunk_offsets@[m] > u32::MAX),
                decreases self.chunk_offsets@.len() - k,
            {
                entries.push(self.chunk_offsets[k] as u32);
                k = k + 1;
            }
            stco = Some(StcoBox { version: 0, flags: 0, entries });
        }
        let stts = SttsBox { version: 0, flags: 0, entries: copy_stts(&self.stts_runs) };
        let ctts: Option<CttsBox> = if self.have_ctts {
            Some(CttsBox { version: 0, flags: 0, entries: copy_ctts(&self.ctts_runs) })
        } else {
            None
        };
        let stss: Option<StssBox> = if self.all_sync {
            None
        } else {
            Some(StssBox { version: 0, flags: 0, entries: copy_u32s(&self.stss_list) })
        };
        let stsz = StszBox {
            version: 0,
            flags: 0,
            sample_size: 0,
            sample_count: self.sample_count,
            sample_sizes: copy_u32s(&self.sample_sizes),
        };
        let stbl = StblBox {
            stsd,
            stts,
            ctts,
            stss,
            stsc: StscBox { version: 0, flags: 0, entries: stsc_entries },
            stsz,
            stco,
            co64,
        };
        let track_dur = media_to_movie(self.duration_in_media, self.timescale, movie_timescale);
        let (vmhd, smhd): (Option<VmhdBox>, Option<SmhdBox>) = match self.track_type {
            TrackType::Video => (
                Some(
                    VmhdBox {
                        version: 0,
                        flags: 1,
                        graphics_mode: 0,
                        op_color_red: 0,
                        op_color_green: 0,
                        op_color_blue: 0,
                    },
                ),
                None,
            ),
            TrackType::Audio => (
                None,
                Some(
                    SmhdBox {
                        version: 0,
                        flags: 0,
                        balance: crate::types::FixedPointI8::new_raw(0),
                    },
                ),
            ),
            TrackType::Subtitle => (None, None),
        };
        let tkhd = TkhdBox {
            version: if track_dur > u32::MAX as u64 {
                1
            } else {
                0
            },
            flags: crate::moov::TRACK_FLAG_DEFAULT,
            creation_time: 0,
            modification_time: 0,
            track_id: self.track_id,
            duration: track_dur,
            layer: 0,
            alternate_group: 0,
            volume: if matches!(self.track_type, TrackType::Audio) {
                FixedPointU8::new(1)
            } else {
                FixedPointU8::new_raw(0)
            },
            width: FixedPointU16::new(self.width),
            height: FixedPointU16::new(self.height),
        };
        let mdhd = MdhdBox {
            version: if self.duration_in_media > u32::MAX as u64 {
                1
            } else {
                0
            },
            flags: 0,
            creation_time: 0,
            modification_time: 0,
            timescale: self.timescale,
            duration: self.duration_in_media,
            language: self.language,
        };
        let hdlr = HdlrBox {
            version: 0,
            flags: 0,
            handler_type: self.track_type.to_fourcc(),
            name: self.track_type.handler_name(),
        };
        let edts: Option<EdtsBox> = match &self.elst {
            Some(e) => Some(EdtsBox { elst: Some(clone_elst(e)) }),
            None => None,
        };
        proof {
            let cc = csc.len() as int;
            assert(spec_final_offsets(*old(self)).len() == cc);
            if stbl.stsc.entries@.len() == 0 {
                assert(cc == 0);
                assert(spec_counts_total(csc) == 0);
                assert(stbl.stsc.spec_total(cc) == old(self).sample_count);
            } else {
                let e = stbl.stsc.entries@.last();
                assert(first_sample == e.first_sample + (cc + 1 - e.first_chunk)
                    * e.samples_per_chunk);
                assert((cc + 1 - e.first_chunk) * e.samples_per_chunk == (cc - e.first_chunk + 1)
                    * e.samples_per_chunk);
                assert(stbl.stsc.spec_total(cc) == first_sample - 1);
                assert(stbl.stsc.spec_total(cc) == spec_counts_total(csc));
            }
            assert(stbl.stsc.spec_wf(cc));
        }
        Ok(
            TrakBox {
                tkhd,
                edts,
                mdia: MdiaBox { mdhd, hdlr, minf: MinfBox { vmhd, smhd, dinf: DinfBox {}, stbl } },
            },
        )
    }
}

/// What the timescale conversion returns: `duration * movie / media`,
/// rounded down; zero when either scale is zero, and saturating when the
/// product would not fit.
pub open spec fn spec_media_to_movie(duration: u64, media_timescale: u32, movie_timescale: u32)
    -> int {
    if media_timescale == 0 || movie_timescale == 0 {
        0
    } else if duration > u64::MAX as int / (movie_timescale as int) {
        u64::MAX as int / (media_timescale as int)
    } else {
        (duration * movie_timescale) as int / (media_timescale as int)
    }
}

/// Converts a duration between timescales, rounding down.
pub fn media_to_movie(duration: u64, media_timescale: u32, movie_timescale: u32) -> (r: u64)
    ensures
        r == spec_media_to_movie(duration, media_timescale, movie_timescale),
{
    if media_timescale == 0 {
        return 0;
    }
    if movie_timescale == 0 {
        return 0;
    }
    if duration > u64::MAX / (movie_timescale as u64) {
        return u64::MAX / (media_timescale as u64);
    }
    proof {
        let d = duration as int;
        let m = movie_timescale as int;
        assert(d <= u64::MAX as int / m ==> d * m <= u64::MAX as int) by (nonlinear_arith)
            requires
                m >= 1,
                d >= 0,
        ;
    }
    (duration * (movie_timescale as u64)) / (media_timescale as u64)
}

/// Builds the sample description for a media configuration.
#[verifier::rlimit(100)]
fn build_stsd(conf: &MediaConfig) -> (r: Result<StsdBox, Error>)
    ensures
        r matches Ok(s) ==> s.version == 0 && s.flags == 0 && stsd_matches(s, *conf),
{
    let mut stsd = StsdBox::default();
    match conf {
        MediaConfig::AvcConfig(c) => {
            let b = match crate::avc::Avc1Box::new(c) {
                Ok(b) => b,
                Err(e) => { return Err(e); },
            };
            stsd.avc1 = Some(b);
        },
        MediaConfig::HevcConfig(c) => {
            let b = crate::hevc::Hvc1Box::new(c);
            if c.use_hvc1 {
                stsd.hvc1 = Some(b);
            } else {
                stsd.hev1 = Some(crate::hevc::Hev1Box { entry: b });
            }
        },
        MediaConfig::Vp9Config(c) => {
            stsd.vp09 = Some(crate::vp09::Vp09Box::new(c));
        },
        MediaConfig::AacConfig(c) => {
            let mut esds = crate::mp4a::EsdsBox::default();
            esds.es_desc.dec_config.avg_bitrate = c.bitrate;
            esds.es_desc.dec_config.max_bitrate = c.bitrate;
            esds.es_desc.dec_config.dec_specific.profile = c.profile.as_u8();
            esds.es_desc.dec_config.dec_specific.freq_index = c.freq_index.as_u8();
            esds.es_desc.dec_config.dec_specific.chan_conf = c.chan_conf.as_u8();
            stsd.mp4a = Some(
                crate::mp4a::Mp4aBox {
                    data_reference_index: 1,
                    channelcount: c.chan_conf.as_u8() as u16,
                    samplesize: c.samplesize,
                    samplerate: FixedPointU16::new(
                        #[verifier::truncate] (c.freq_index.freq() as u16),
                    ),
                    esds: Some(esds),
                    qt_bytes: None,
                },
            );
        },
        MediaConfig::TtxtConfig(c) => {
            stsd.tx3g = Some(crate::tx3g::Tx3gBox::new(c));
        },
        MediaConfig::OpusConfig(c) => {
            stsd.opus = Some(crate::opus::OpusBox::new(c));
        },
    }
    Ok(stsd)
}

/// Copies a table out of the writer state.
fn copy_u32s(v: &Vec<u32>) -> (r: Vec<u32>)
    ensures
        r@ == v@,
{
    let mut out: Vec<u32> = Vec::new();
    let mut i: usize = 0;
    while i < v.len()
        invariant
            i <= v@.len(),
            out@ == v@.take(i as int),
        decreases v@.len() - i,
    {
        out.push(v[i]);
        assert(out@ =~= v@.take(i + 1));
        i = i + 1;
    }
    assert(out@ =~= v@);
    out
}

fn copy_stts(v: &Vec<SttsEntry>) -> (r: Vec<SttsEntry>)
    ensures
        r@ == v@,
{
    let mut out: Vec<SttsEntry> = Vec::new();
    let mut i: usize = 0;
    while i < v.len()
        invariant
            i <= v@.len(),
            out@ == v@.take(i as int),
        decreases v@.len() - i,
    {
        out.push(v[i]);
        assert(out@ =~= v@.take(i + 1));
        i = i + 1;
    }
    assert(out@ =~= v@);
    out
}

fn copy_ctts(v: &Vec<CttsEntry>) -> (r: Vec<CttsEntry>)
    ensures
        r@ == v@,
{
    let mut out: Vec<CttsEntry> = Vec::new();
    let mut i: usize = 0;
    while i < v.len()
        invariant
            i <= v@.len(),
            out@ == v@.take(i as int),
        decreases v@.len() - i,
    {
        out.push(v[i]);
        assert(out@ =~= v@.take(i + 1));
        i = i + 1;
    }
    assert(out@ =~= v@);
    out
}

fn clone_elst(e: &ElstBox) -> (r: ElstBox)
    ensures
        r.version == e.version,
        r.flags == e.flags,
        r.entries@ == e.entries@,
{
    let mut entries: Vec<ElstEntry> = Vec::new();
    let mut i: usize = 0;
    while i < e.entries.len()
        invariant
            i <= e.entries@.len(),
            entries@ == e.entries@.take(i as int),
        decreases e.entries@.len() - i,
    {
        entries.push(e.entries[i]);
        assert(entries@ =~= e.entries@.take(i + 1));
        i = i + 1;
    }
    assert(entries@ =~= e.entries@);
    ElstBox { version: e.version, flags: e.flags, entries }
}


} // verus!
