//! The file writer facade: emits `ftyp` and an `mdat` placeholder,
//! streams samples through the per-track writers, then patches the
//! `mdat` size and appends `moov`.

use vstd::prelude::*;

use crate::bigend::u32_be;
use crate::bigend::u64_be;
use crate::boxhead::BoxHeader;
use crate::boxhead::BoxType;
use crate::boxhead::HEADER_SIZE;
use crate::error::Error;
use crate::ftyp::FtypBox;
use crate::moov::MoovBox;
use crate::moov::MvhdBox;
use crate::track::Mp4TrackWriter;
use crate::track::TrackConfig;
use crate::types::FourCC;
use crate::types::Mp4Sample;

verus! {

/// The movie-level configuration of a new file.
#[derive(Debug, Clone, PartialEq, Eq)]
pub struct Mp4Config {
    pub major_brand: FourCC,
    pub minor_version: u32,
    pub compatible_brands: Vec<FourCC>,
    pub timescale: u32,
}

/// The file writer. The file grows inside the owned byte buffer; track
/// state is kept per track in insertion order.
#[derive(Debug)]
pub struct Mp4Writer {
    pub data: Vec<u8>,
    pub tracks: Vec<Mp4TrackWriter>,
    pub mdat_pos: u64,
    pub timescale: u32,
    pub duration: u64,
}



/// The edit segment duration: microseconds rescaled to the movie
/// timescale, clamped to the movie duration.
pub open spec fn spec_clamped_duration(duration_us: u64, timescale: u32, movie_duration: u64)
    -> u64 {
    let d = crate::track::spec_media_to_movie(duration_us, 1000000u32, timescale);
    if d < movie_duration {
        d as u64
    } else {
        movie_duration
    }
}


/// The `mdat` header patch `update_mdat_size` performs on the file
/// bytes: the compact 32-bit size, or the `largesize` rewrite into the
/// reserved `wide` slot when the box exceeds 32 bits.
pub open spec fn spec_patch_mdat(d: Seq<u8>, p: int) -> Seq<u8> {
    let size = d.len() - p;
    if size > u32::MAX {
        d.subrange(0, p) + u32_be(1) + d.subrange(p + 4, p + 8) + u64_be(size as u64) + d.skip(
            p + 16,
        )
    } else {
        d.subrange(0, p) + u32_be(size as u32) + d.skip(p + 4)
    }
}

/// The largest track identifier in use, zero when there are none.
pub open spec fn spec_max_track_id(s: Seq<Mp4TrackWriter>) -> int
    decreases s.len(),
{
    if s.len() == 0 {
        0
    } else {
        let m = spec_max_track_id(s.drop_last());
        if s.last().track_id > m {
            s.last().track_id as int
        } else {
            m
        }
    }
}

/// Every identifier in use is at most the maximum.
pub proof fn lemma_max_track_id(s: Seq<Mp4TrackWriter>, i: int)
    requires
        0 <= i < s.len(),
    ensures
        s[i].track_id <= spec_max_track_id(s),
        spec_max_track_id(s) >= 0,
    decreases s.len(),
{
    if i < s.len() - 1 {
        lemma_max_track_id(s.drop_last(), i);
        assert(s.drop_last()[i] == s[i]);
    }
    if s.len() >= 1 && spec_max_track_id(s.drop_last()) < 0 {
        lemma_max_nonneg(s.drop_last());
    }
}

/// The maximum is never negative.
pub proof fn lemma_max_nonneg(s: Seq<Mp4TrackWriter>)
    ensures
        spec_max_track_id(s) >= 0,
    decreases s.len(),
{
    if s.len() > 0 {
        lemma_max_nonneg(s.drop_last());
    }
}

impl Mp4Writer {
    /// Track identifiers are unique and every track's bookkeeping
    /// invariant holds.
    pub open spec fn wf(&self) -> bool {
        &&& forall|i: int, j: int|
            0 <= i < j < self.tracks@.len() ==> (#[trigger] self.tracks@[i]).track_id != (
            #[trigger] self.tracks@[j]).track_id
        &&& forall|i: int| 0 <= i < self.tracks@.len() ==> (#[trigger] self.tracks@[i]).inv()
    }

    /// Consumes the writer, returning the file bytes built so far.
    pub fn into_writer(self) -> (r: Vec<u8>)
        ensures
            r@ == self.data@,
    {
        self.data
    }

    /// Starts a file: `ftyp`, then an 8-byte `mdat` placeholder followed
    /// by a `wide` box, so the `mdat` header can later grow to its
    /// 16-byte `largesize` form in place.
    #[verifier::loop_isolation(false)]
    pub fn write_start(config: &Mp4Config) -> (r: Result<Mp4Writer, Error>)
        ensures
            r matches Ok(w) ==> {
                &&& w.mdat_pos == (FtypBox {
                    major_brand: config.major_brand,
                    minor_version: config.minor_version,
                    compatible_brands: config.compatible_brands,
                }).spec_size()
                &&& w.data@ == (FtypBox {
                    major_brand: config.major_brand,
                    minor_version: config.minor_version,
                    compatible_brands: config.compatible_brands,
                }).spec_bytes() + (BoxHeader { name: BoxType::MdatBox, size: HEADER_SIZE as u64 })
                    .spec_bytes() + (BoxHeader { name: BoxType::WideBox, size: HEADER_SIZE as u64 })
                    .spec_bytes()
                &&& w.timescale == config.timescale
                &&& w.duration == 0
                &&& w.tracks@.len() == 0
                &&& w.wf()
            },
            config.compatible_brands@.len() <= 0x100000 ==> r is Ok,
    {
        if config.compatible_brands.len() > 0x100000 {
            return Err(Error::InvalidData("too many compatible brands"));
        }
        let ftyp = FtypBox {
            major_brand: FourCC { value: config.major_brand.value },
            minor_version: config.minor_version,
            compatible_brands: clone_brands(&config.compatible_brands),
        };
        let mut data: Vec<u8> = Vec::new();
        let _ = ftyp.write_box(&mut data);
        let mdat_pos = data.len() as u64;
        let _ = BoxHeader::new(BoxType::MdatBox, HEADER_SIZE).write(&mut data);
        let _ = BoxHeader::new(BoxType::WideBox, HEADER_SIZE).write(&mut data);
        let w = Mp4Writer { data, tracks: Vec::new(), mdat_pos, timescale: config.timescale, duration: 0 };
        proof {
            let model = FtypBox {
                major_brand: config.major_brand,
                minor_version: config.minor_version,
                compatible_brands: config.compatible_brands,
            };
            assert(ftyp.major_brand == config.major_brand);
            assert(ftyp.compatible_brands@ == config.compatible_brands@);
            crate::ftyp::lemma_brands_bytes_len(ftyp.compatible_brands@);
            assert(ftyp.spec_bytes().len() == ftyp.spec_size());
            assert(ftyp.spec_size() == model.spec_size());
            assert(ftyp.spec_payload() =~= model.spec_payload());
            assert(ftyp.spec_bytes() =~= model.spec_bytes());
            assert(w.tracks@.len() == 0);
        }
        Ok(w)
    }

    /// Adds a track: the requested identifier, or the largest existing
    /// identifier plus one. A duplicate identifier is rejected.
    #[verifier::loop_isolation(false)]
    pub fn add_track(&mut self, config: &TrackConfig) -> (r: Result<u32, Error>)
        requires
            old(self).wf(),
        ensures
            final(self).wf(),
            r matches Ok(id) ==> final(self).tracks@.len() == old(self).tracks@.len() + 1
                && final(self).tracks@.take(old(self).tracks@.len() as int) == old(self).tracks@
                && final(self).tracks@.last().track_id == id && (match config.track_id {
                Some(want) => id == want,
                None => id == spec_max_track_id(old(self).tracks@) + 1,
            }) && final(self).tracks@.last().track_type == config.track_type
                && final(self).tracks@.last().timescale == config.timescale
                && final(self).tracks@.last().sample_count == 0
                && crate::types::spec_media_conf_eq(
                final(self).tracks@.last().media_conf,
                config.media_conf,
            ) && {
                let t = final(self).tracks@.last();
                &&& t.duration_in_media == 0
                &&& t.stts_runs@.len() == 0
                &&& t.ctts_runs@.len() == 0
                &&& !t.have_ctts
                &&& t.stss_list@.len() == 0
                &&& t.all_sync
                &&& t.sample_sizes@.len() == 0
                &&& t.chunk_offsets@.len() == 0
                &&& t.chunk_sample_counts@.len() == 0
                &&& t.current_chunk_count == 0
                &&& t.elst is None
            },
            r is Err ==> final(self).tracks@ == old(self).tracks@,
            old(self).tracks@.len() < 0xFFFF && (config.track_id matches Some(want) && exists|i: int|
                0 <= i < old(self).tracks@.len() && (#[trigger] old(self).tracks@[i]).track_id
                    == want) ==> r == Err::<u32, Error>(
                Error::InvalidData("track_id already exists"),
            ),
            final(self).data@ == old(self).data@,
            final(self).duration == old(self).duration,
            final(self).timescale == old(self).timescale,
            old(self).tracks@.len() < 0xFFFF && (match config.track_id {
                Some(want) => want != 0 && (forall|i: int|
                    0 <= i < old(self).tracks@.len() ==> (#[trigger] old(self).tracks@[i]).track_id
                        != want),
                None => spec_max_track_id(old(self).tracks@) < u32::MAX,
            }) ==> r is Ok,
    {
        if self.tracks.len() >= 0xFFFF {
            return Err(Error::InvalidData("too many tracks"));
        }
        let track_id: u32 = match config.track_id {
            Some(id) => id,
            None => {
                let mut max_id: u32 = 0;
                let mut k: usize = 0;
                while k < self.tracks.len()
                    invariant
                        k <= self.tracks@.len(),
                        max_id == spec_max_track_id(self.tracks@.take(k as int)),
                    decreases self.tracks@.len() - k,
                {
                    proof {
                        let nxt = self.tracks@.take(k + 1);
                        assert(nxt.drop_last() =~= self.tracks@.take(k as int));
                        assert(nxt.last() == self.tracks@[k as int]);
                    }
                    if self.tracks[k].track_id > max_id {
                        max_id = self.tracks[k].track_id;
                    }
                    k = k + 1;
                }
                proof {
                    assert(self.tracks@.take(self.tracks@.len() as int) =~= self.tracks@);
                }
                if max_id == u32::MAX {
                    return Err(Error::InvalidData("track_id space exhausted"));
                }
                max_id + 1
            },
        };
        proof {
            if config.track_id is None {
                assert forall|j: int|
                    0 <= j < self.tracks@.len() implies (#[trigger] self.tracks@[j]).track_id
                    != track_id by {
                    lemma_max_track_id(self.tracks@, j);
                }
            }
        }
        let mut i: usize = 0;
        while i < self.tracks.len()
            invariant
                i <= self.tracks@.len(),
                forall|j: int| 0 <= j < i ==> (#[trigger] self.tracks@[j]).track_id != track_id,
            decreases self.tracks@.len() - i,
        {
            if self.tracks[i].track_id == track_id {
                return Err(Error::InvalidData("track_id already exists"));
            }
            i = i + 1;
        }
        let track = match Mp4TrackWriter::new(track_id, config) {
            Ok(t) => t,
            Err(e) => { return Err(e); },
        };
        self.tracks.push(track);
        proof {
            assert forall|a: int, b: int|
                0 <= a < b < self.tracks@.len() implies (#[trigger] self.tracks@[a]).track_id != (
            #[trigger] self.tracks@[b]).track_id by {
                if b < self.tracks@.len() - 1 {
                    assert(old(self).tracks@[a].track_id != old(self).tracks@[b].track_id);
                }
            }
        }
        Ok(track_id)
    }

    /// Inserts an edit list for a track: the segment duration is the
    /// microsecond duration rescaled to the movie timescale and clamped
    /// to the movie duration known so far; the media time is the
    /// microsecond offset rescaled to the track's media timescale.
    #[verifier::loop_isolation(false)]
    pub fn update_offset(&mut self, track_id: u32, offset: u64, duration_us: u64) -> (r: Result<
        (),
        Error,
    >)
        requires
            old(self).wf(),
        ensures
            final(self).wf(),
            final(self).data@ == old(self).data@,
            final(self).duration == old(self).duration,
            final(self).timescale == old(self).timescale,
            final(self).mdat_pos == old(self).mdat_pos,
            r is Err ==> final(self).tracks@ == old(self).tracks@,
            r is Ok ==> exists|i: int|
                0 <= i < old(self).tracks@.len() && (#[trigger] old(self).tracks@[i]).track_id
                    == track_id && final(self).tracks@ == old(self).tracks@.update(
                    i,
                    final(self).tracks@[i],
                ) && (final(self).tracks@[i].elst matches Some(e) && e.entries@.len() == 1
                    && e.entries@[0] == (crate::moov::ElstEntry {
                    segment_duration: spec_clamped_duration(
                        duration_us,
                        old(self).timescale,
                        old(self).duration,
                    ),
                    media_time: (crate::track::spec_media_to_movie(
                        offset,
                        1000000u32,
                        old(self).tracks@[i].timescale,
                    )) as u64,
                    media_rate: 1u16,
                    media_rate_fraction: 0u16,
                })) && final(self).tracks@[i] == (Mp4TrackWriter {
                    elst: final(self).tracks@[i].elst,
                    ..old(self).tracks@[i]
                }),
            (forall|i: int|
                0 <= i < old(self).tracks@.len() ==> (#[trigger] old(self).tracks@[i]).track_id
                    != track_id) ==> (r matches Err(Error::TrakNotFound(t)) && t == track_id),
    {
        let duration = crate::track::media_to_movie(duration_us, 1000000, self.timescale);
        let clamped = if duration < self.duration {
            duration
        } else {
            self.duration
        };
        let mut i: usize = 0;
        let n = self.tracks.len();
        while i < n
            invariant
                i <= n,
                n == self.tracks@.len(),
                self.wf(),
                self.data@ == old(self).data@,
                self.duration == old(self).duration,
                self.timescale == old(self).timescale,
                self.mdat_pos == old(self).mdat_pos,
                self.tracks@ == old(self).tracks@,
                forall|j: int| 0 <= j < i ==> (#[trigger] self.tracks@[j]).track_id != track_id,
            decreases n - i,
        {
            if self.tracks[i].track_id == track_id {
                let t = &mut self.tracks[i];
                let res = t.update_edit_list(offset, clamped);
                proof {
                    if res is Err {
                        assert(self.tracks@ =~= old(self).tracks@);
                    }
                    assert(self.tracks@ =~= old(self).tracks@.update(
                        i as int,
                        self.tracks@[i as int],
                    ));
                    assert forall|a: int, b: int|
                        0 <= a < b < self.tracks@.len() implies (#[trigger] self.tracks@[
                        a
                    ]).track_id != (#[trigger] self.tracks@[b]).track_id by {
                        assert(old(self).tracks@[a].track_id != old(self).tracks@[b].track_id);
                    }
                    assert forall|a: int|
                        0 <= a < self.tracks@.len() implies (#[trigger] self.tracks@[a]).inv()
                        by {
                        if a != i as int {
                            assert(old(self).tracks@[a].inv());
                        }
                    }
                }
                return res;
            }
            i = i + 1;
        }
        Err(Error::TrakNotFound(track_id))
    }

    /// Raises the movie duration to a finished track's duration when
    /// that is larger: the movie duration is the maximum over tracks.
    pub fn update_durations(&mut self, track_dur: u64)
        ensures
            final(self).duration == (if track_dur > old(self).duration {
                track_dur
            } else {
                old(self).duration
            }),
            final(self).data@ == old(self).data@,
            final(self).tracks@ == old(self).tracks@,
            final(self).timescale == old(self).timescale,
            final(self).mdat_pos == old(self).mdat_pos,
    {
        if track_dur > self.duration {
            self.duration = track_dur;
        }
    }

    /// Appends a sample to the named track; a zero or unknown identifier
    /// is rejected. The movie duration becomes the maximum of the track
    /// durations seen so far.
    #[verifier::loop_isolation(false)]
    pub fn write_sample(&mut self, track_id: u32, sample: &Mp4Sample) -> (r: Result<(), Error>)
        requires
            old(self).wf(),
        ensures
            final(self).wf(),
            final(self).timescale == old(self).timescale,
            final(self).mdat_pos == old(self).mdat_pos,
            r is Err ==> final(self).data@ == old(self).data@ && final(self).tracks@ == old(
                self,
            ).tracks@ && final(self).duration == old(self).duration,
            track_id == 0 || (forall|i: int|
                0 <= i < old(self).tracks@.len() ==> (#[trigger] old(self).tracks@[i]).track_id
                    != track_id) ==> (r matches Err(Error::TrakNotFound(t)) && t == track_id),
            r is Ok ==> exists|i: int|
                {
                    &&& 0 <= i < old(self).tracks@.len()
                    &&& (#[trigger] old(self).tracks@[i]).track_id == track_id
                    &&& final(self).data@ == old(self).data@ + sample.bytes@
                    &&& final(self).tracks@ == old(self).tracks@.update(
                        i,
                        final(self).tracks@[i],
                    )
                    &&& crate::track::appended(
                        old(self).tracks@[i],
                        final(self).tracks@[i],
                        old(self).data@.len() as int,
                        *sample,
                    )
                    &&& {
                        let td = crate::track::spec_media_to_movie(
                            final(self).tracks@[i].duration_in_media,
                            old(self).tracks@[i].timescale,
                            old(self).timescale,
                        );
                        final(self).duration == (if td > old(self).duration {
                            td
                        } else {
                            old(self).duration as int
                        })
                    }
                },
            track_id != 0 && (exists|i: int|
                0 <= i < old(self).tracks@.len() && (#[trigger] old(self).tracks@[i]).track_id
                    == track_id && old(self).tracks@[i].can_append(
                    old(self).data@.len() as int,
                    *sample,
                )) ==> r is Ok,
    {
        if track_id == 0 {
            return Err(Error::TrakNotFound(track_id));
        }
        let timescale = self.timescale;
        let mut i: usize = 0;
        let n = self.tracks.len();
        while i < n
            invariant
                i <= n,
                n == self.tracks@.len(),
                self.timescale == old(self).timescale,
                self.mdat_pos == old(self).mdat_pos,
                self.duration == old(self).duration,
                self.data@ == old(self).data@,
                self.tracks@ == old(self).tracks@,
                forall|j: int| 0 <= j < i ==> (#[trigger] self.tracks@[j]).track_id != track_id,
            decreases n - i,
        {
            if self.tracks[i].track_id == track_id {
                let mut data = Vec::new();
                core::mem::swap(&mut data, &mut self.data);
                let t = &mut self.tracks[i];
                let res = t.write_sample(&mut data, sample, timescale);
                core::mem::swap(&mut data, &mut self.data);
                proof {
                    assert(self.tracks@ =~= old(self).tracks@.update(
                        i as int,
                        self.tracks@[i as int],
                    ));
                    assert forall|a: int, b: int|
                        0 <= a < b < self.tracks@.len() implies (#[trigger] self.tracks@[
                        a
                    ]).track_id != (#[trigger] self.tracks@[b]).track_id by {
                        assert(old(self).tracks@[a].track_id != old(self).tracks@[b].track_id);
                    }
                }
                match res {
                    Ok(track_dur) => {
                        proof {
                            assert forall|a: int|
                                0 <= a < self.tracks@.len() implies (#[trigger] self.tracks@[
                            a]).inv() by {
                                if a != i as int {
                                    assert(old(self).tracks@[a].inv());
                                }
                            }
                        }
                        self.update_durations(track_dur);
                        return Ok(());
                    },
                    Err(e) => {
                        proof {
                            assert(self.tracks@ =~= old(self).tracks@);
                        }
                        return Err(e);
                    },
                }
            }
            i = i + 1;
        }
        Err(Error::TrakNotFound(track_id))
    }

    /// Patches the `mdat` size in place. A size that fits 32 bits is
    /// written into the placeholder header; a larger one rewrites the
    /// header to `size = 1` and puts the 64-bit `largesize` into the
    /// reserved `wide` slot that follows.
    pub fn update_mdat_size(&mut self) -> (r: Result<(), Error>)
        ensures
            r is Ok ==> {
                &&& final(self).data@.len() == old(self).data@.len()
                &&& old(self).mdat_pos + 16 <= old(self).data@.len()
                &&& {
                    let mdat_size = old(self).data@.len() - old(self).mdat_pos;
                    let p = old(self).mdat_pos as int;
                    if mdat_size > u32::MAX {
                        final(self).data@ == old(self).data@.subrange(0, p) + u32_be(1)
                            + old(self).data@.subrange(p + 4, p + 8) + u64_be(
                            mdat_size as u64,
                        ) + old(self).data@.skip(p + 16)
                    } else {
                        final(self).data@ == old(self).data@.subrange(0, p) + u32_be(
                            mdat_size as u32,
                        ) + old(self).data@.skip(p + 4)
                    }
                }
            },
            final(self).tracks@ == old(self).tracks@,
            final(self).duration == old(self).duration,
            final(self).timescale == old(self).timescale,
            final(self).mdat_pos == old(self).mdat_pos,
            old(self).mdat_pos + 16 <= old(self).data@.len() ==> r is Ok,
    {
        let mdat_end = self.data.len() as u64;
        if self.mdat_pos > mdat_end || mdat_end - self.mdat_pos < 16 {
            return Err(Error::InvalidData("mdat placeholder missing"));
        }
        let mdat_size = mdat_end - self.mdat_pos;
        let p = self.mdat_pos as usize;
        if mdat_size > u32::MAX as u64 {
            overwrite_u32(&mut self.data, p, 1);
            overwrite_u64(&mut self.data, p + 8, mdat_size);
            proof {
                let d0 = old(self).data@;
                let pi = p as int;
                assert(self.data@ =~= d0.subrange(0, pi) + u32_be(1) + d0.subrange(pi + 4, pi + 8)
                    + u64_be(mdat_size as u64) + d0.skip(pi + 16));
            }
        } else {
            overwrite_u32(&mut self.data, p, mdat_size as u32);
            proof {
                let d0 = old(self).data@;
                let pi = p as int;
                assert(self.data@ =~= d0.subrange(0, pi) + u32_be(mdat_size as u32) + d0.skip(
                    pi + 4,
                ));
            }
        }
        Ok(())
    }

    /// Finishes the file: each track is closed into its `trak`, the
    /// `mdat` size is patched, and `moov` is appended with the movie
    /// duration; the movie header takes version 1 exactly when the
    /// duration needs 64 bits.
    #[verifier::loop_isolation(false)]
    pub fn write_end(&mut self) -> (r: Result<(), Error>)
        requires
            old(self).wf(),
        ensures
            final(self).wf(),
            final(self).duration == old(self).duration,
            final(self).timescale == old(self).timescale,
            r is Ok ==> exists|m: MoovBox|
                {
                    &&& #[trigger] m.wf()
                    &&& m.mvhd.timescale == old(self).timescale
                    &&& m.mvhd.duration == old(self).duration
                    &&& (m.mvhd.version == 1 <==> old(self).duration > u32::MAX)
                    &&& m.traks@.len() == old(self).tracks@.len()
                    &&& (forall|i: int|
                        0 <= i < m.traks@.len() ==> crate::track::trak_matches(
                            #[trigger] m.traks@[i],
                            old(self).tracks@[i],
                            old(self).timescale,
                        ))
                    &&& old(self).mdat_pos + 16 <= old(self).data@.len()
                    &&& final(self).data@ == spec_patch_mdat(
                        old(self).data@,
                        old(self).mdat_pos as int,
                    ) + m.spec_bytes()
                },
    {
        let mut moov = MoovBox::default();
        let timescale = self.timescale;
        let n = self.tracks.len();
        let mut i: usize = 0;
        while i < n
            invariant
                i <= n,
                n == self.tracks@.len(),
                self.timescale == old(self).timescale,
                self.mdat_pos == old(self).mdat_pos,
                self.duration == old(self).duration,
                self.data@ == old(self).data@,
                forall|j: int, k: int|
                    0 <= j < k < self.tracks@.len() ==> (#[trigger] self.tracks@[j]).track_id != (
                    #[trigger] self.tracks@[k]).track_id,
                forall|j: int|
                    0 <= j < self.tracks@.len() ==> (#[trigger] self.tracks@[j]).track_id == old(
                        self,
                    ).tracks@[j].track_id,
                forall|j: int| 0 <= j < self.tracks@.len() ==> (#[trigger] self.tracks@[j]).inv(),
                forall|j: int|
                    i <= j < self.tracks@.len() ==> self.tracks@[j] == old(self).tracks@[j],
                moov.mvhd.version == 0 && moov.mvhd.flags == 0 && moov.mvhd.creation_time == 0
                    && moov.mvhd.modification_time == 0,
                moov.traks@.len() == i,
                forall|j: int|
                    0 <= j < i ==> crate::track::trak_matches(
                        #[trigger] moov.traks@[j],
                        old(self).tracks@[j],
                        old(self).timescale,
                    ),
            decreases n - i,
        {
            let t = &mut self.tracks[i];
            let trak = match t.write_end(timescale) {
                Ok(t) => t,
                Err(e) => { return Err(e); },
            };
            moov.traks.push(trak);
            i = i + 1;
        }
        match self.update_mdat_size() {
            Ok(()) => (),
            Err(e) => { return Err(e); },
        }
        moov.mvhd.timescale = self.timescale;
        moov.mvhd.duration = self.duration;
        if moov.mvhd.duration > u32::MAX as u64 {
            moov.mvhd.version = 1;
        }
        if !moov.check_wf() {
            return Err(Error::InvalidData("moov too large"));
        }
        let ghost patched = self.data@;
        let mut data = Vec::new();
        core::mem::swap(&mut data, &mut self.data);
        let res = moov.write_box(&mut data);
        core::mem::swap(&mut data, &mut self.data);
        match res {
            Ok(_) => {
                proof {
                    let gm = moov;
                    assert(gm.wf());
                    assert(patched == spec_patch_mdat(old(self).data@, old(self).mdat_pos as int));
                    assert(self.data@ == patched + gm.spec_bytes());
                }
                Ok(())
            },
            Err(e) => Err(e),
        }
    }

    /// The identifiers of the tracks, in insertion order.
    #[verifier::loop_isolation(false)]
    pub fn track_ids(&self) -> (r: Vec<u32>)
        ensures
            r@.len() == self.tracks@.len(),
            forall|i: int| 0 <= i < r@.len() ==> r@[i] == (#[trigger] self.tracks@[i]).track_id,
    {
        let mut out: Vec<u32> = Vec::new();
        let mut i: usize = 0;
        while i < self.tracks.len()
            invariant
                i <= self.tracks@.len(),
                out@.len() == i,
                forall|j: int| 0 <= j < i ==> out@[j] == (#[trigger] self.tracks@[j]).track_id,
            decreases self.tracks@.len() - i,
        {
            out.push(self.tracks[i].track_id);
            i = i + 1;
        }
        out
    }
}

/// Overwrites four bytes in place with a big-endian value.
fn overwrite_u32(data: &mut Vec<u8>, pos: usize, v: u32)
    requires
        pos + 4 <= old(data)@.len(),
        pos + 4 <= usize::MAX,
    ensures
        final(data)@.len() == old(data)@.len(),
        final(data)@ == old(data)@.subrange(0, pos as int) + u32_be(v) + old(data)@.skip(
            pos as int + 4,
        ),
{
    data.set(pos, ((v >> 24) & 0xFF) as u8);
    data.set(pos + 1, ((v >> 16) & 0xFF) as u8);
    data.set(pos + 2, ((v >> 8) & 0xFF) as u8);
    data.set(pos + 3, (v & 0xFF) as u8);
    assert(data@ =~= old(data)@.subrange(0, pos as int) + u32_be(v) + old(data)@.skip(
        pos as int + 4,
    ));
}

/// Overwrites eight bytes in place with a big-endian value.
fn overwrite_u64(data: &mut Vec<u8>, pos: usize, v: u64)
    requires
        pos + 8 <= old(data)@.len(),
        pos + 8 <= usize::MAX,
    ensures
        final(data)@.len() == old(data)@.len(),
        final(data)@ == old(data)@.subrange(0, pos as int) + u64_be(v) + old(data)@.skip(
            pos as int + 8,
        ),
{
    data.set(pos, ((v >> 56) & 0xFF) as u8);
    data.set(pos + 1, ((v >> 48) & 0xFF) as u8);
    data.set(pos + 2, ((v >> 40) & 0xFF) as u8);
    data.set(pos + 3, ((v >> 32) & 0xFF) as u8);
    data.set(pos + 4, ((v >> 24) & 0xFF) as u8);
    data.set(pos + 5, ((v >> 16) & 0xFF) as u8);
    data.set(pos + 6, ((v >> 8) & 0xFF) as u8);
    data.set(pos + 7, (v & 0xFF) as u8);
    assert(data@ =~= old(data)@.subrange(0, pos as int) + u64_be(v) + old(data)@.skip(
        pos as int + 8,
    ));
}

/// Copies a brand list.
fn clone_brands(v: &Vec<FourCC>) -> (r: Vec<FourCC>)
    ensures
        r@ == v@,
{
    let mut out: Vec<FourCC> = Vec::new();
    let mut i: usize = 0;
    while i < v.len()
        invariant
            i <= v@.len(),
            out@ == v@.take(i as int),
        decreases v@.len() - i,
    {
        out.push(v[i]);
        assert(out@ =~= v@.take(i + 1));
        i = i + 1;
    }
    assert(out@ =~= v@);
    out
}

} // verus!
