//! The sample-table boxes (`stts`, `ctts`, `stss`, `stsc`, `stsz`,
//! `stco`, `co64`) and the lookup engine that maps a 1-based sample
//! number to its byte range, timing, sync flag and description index.

use vstd::prelude::*;

use crate::bigend::be32;
use crate::bigend::be64;
use crate::bigend::put_u32;
use crate::bigend::put_u64;
use crate::bigend::read_u32;
use crate::bigend::read_u64;
use crate::bigend::u32_be;
use crate::bigend::u64_be;
use crate::boxhead::read_box_header_ext;
use crate::boxhead::spec_ext_bytes;
use crate::boxhead::write_box_header_ext;
use crate::boxhead::BoxHeader;
use crate::boxhead::BoxType;
use crate::boxhead::HEADER_EXT_SIZE;
use crate::boxhead::HEADER_SIZE;
use crate::error::Error;

verus! {

/// One decode-time run: `sample_count` samples, each `sample_delta` ticks.
#[derive(Debug, Clone, Copy, PartialEq, Eq, Structural)]
pub struct SttsEntry {
    pub sample_count: u32,
    pub sample_delta: u32,
}

/// The decoding time-to-sample box.
#[derive(Debug, Clone, PartialEq, Eq)]
pub struct SttsBox {
    pub version: u8,
    pub flags: u32,
    pub entries: Vec<SttsEntry>,
}

/// One composition-offset run.
#[derive(Debug, Clone, Copy, PartialEq, Eq, Structural)]
pub struct CttsEntry {
    pub sample_count: u32,
    pub sample_offset: i32,
}

/// The composition time-to-sample box.
#[derive(Debug, Clone, PartialEq, Eq)]
pub struct CttsBox {
    pub version: u8,
    pub flags: u32,
    pub entries: Vec<CttsEntry>,
}

/// The sync-sample box: 1-based indices of the sync samples.
#[derive(Debug, Clone, PartialEq, Eq)]
pub struct StssBox {
    pub version: u8,
    pub flags: u32,
    pub entries: Vec<u32>,
}

/// One sample-to-chunk run. `first_sample` is the 1-based number of the
/// first sample governed by the run; it is derived, not on the wire.
#[derive(Debug, Clone, Copy, PartialEq, Eq, Structural)]
pub struct StscEntry {
    pub first_chunk: u32,
    pub samples_per_chunk: u32,
    pub sample_description_index: u32,
    pub first_sample: u32,
}

/// The sample-to-chunk box.
#[derive(Debug, Clone, PartialEq, Eq)]
pub struct StscBox {
    pub version: u8,
    pub flags: u32,
    pub entries: Vec<StscEntry>,
}

/// The sample-size box: one fixed size, or one size per sample.
#[derive(Debug, Clone, PartialEq, Eq)]
pub struct StszBox {
    pub version: u8,
    pub flags: u32,
    pub sample_size: u32,
    pub sample_count: u32,
    pub sample_sizes: Vec<u32>,
}

/// The 32-bit chunk-offset box.
#[derive(Debug, Clone, PartialEq, Eq)]
pub struct StcoBox {
    pub version: u8,
    pub flags: u32,
    pub entries: Vec<u32>,
}

/// The 64-bit chunk-offset box.
#[derive(Debug, Clone, PartialEq, Eq)]
pub struct Co64Box {
    pub version: u8,
    pub flags: u32,
    pub entries: Vec<u64>,
}


/// The sample table: the description box plus the seven lookup tables.
#[derive(Debug, Clone, PartialEq, Eq)]
pub struct StblBox {
    pub stsd: crate::stsd::StsdBox,
    pub stts: SttsBox,
    pub ctts: Option<CttsBox>,
    pub stss: Option<StssBox>,
    pub stsc: StscBox,
    pub stsz: StszBox,
    pub stco: Option<StcoBox>,
    pub co64: Option<Co64Box>,
}

// Decode-time arithmetic over the `stts` runs.

/// The total number of samples the runs cover.
pub open spec fn stts_total(s: Seq<SttsEntry>) -> int
    decreases s.len(),
{
    if s.len() == 0 {
        0
    } else {
        s.first().sample_count + stts_total(s.drop_first())
    }
}

/// The decode time of sample `n` (1-based): the sum of the deltas of all
/// earlier samples.
pub open spec fn stts_start(s: Seq<SttsEntry>, n: int) -> int
    decreases s.len(),
{
    if s.len() == 0 {
        0
    } else if n <= s.first().sample_count {
        (n - 1) * s.first().sample_delta
    } else {
        s.first().sample_count * s.first().sample_delta + stts_start(
            s.drop_first(),
            n - s.first().sample_count,
        )
    }
}

/// The decode delta of sample `n` (1-based).
pub open spec fn stts_delta_at(s: Seq<SttsEntry>, n: int) -> int
    decreases s.len(),
{
    if s.len() == 0 {
        0
    } else if n <= s.first().sample_count {
        s.first().sample_delta as int
    } else {
        stts_delta_at(s.drop_first(), n - s.first().sample_count)
    }
}

/// The first sample starts at time zero.
pub proof fn lemma_stts_start_one(s: Seq<SttsEntry>)
    ensures
        stts_start(s, 1) == 0,
    decreases s.len(),
{
    if s.len() > 0 {
        let d = s.first().sample_delta as int;
        if s.first().sample_count >= 1 {
            assert(stts_start(s, 1) == 0 * d);
            assert(0 * d == 0) by (nonlinear_arith);
        } else {
            lemma_stts_start_one(s.drop_first());
        }
    }
}

/// Consecutive decode times differ by exactly the delta of the earlier
/// sample: `start(n + 1) - start(n) == delta(n)`.
pub proof fn lemma_stts_consecutive(s: Seq<SttsEntry>, n: int)
    requires
        1 <= n,
        n + 1 <= stts_total(s),
    ensures
        stts_start(s, n + 1) - stts_start(s, n) == stts_delta_at(s, n),
    decreases s.len(),
{
    if s.len() == 0 {
    } else {
        let c = s.first().sample_count as int;
        let d = s.first().sample_delta as int;
        if n + 1 <= c {
            assert(stts_start(s, n + 1) == n * d);
            assert(stts_start(s, n) == (n - 1) * d);
            assert(n * d - (n - 1) * d == d) by (nonlinear_arith);
        } else if n <= c {
            assert(n == c);
            lemma_stts_start_one(s.drop_first());
            assert(stts_start(s, n + 1) == c * d + stts_start(s.drop_first(), 1));
            assert(stts_start(s, n) == (c - 1) * d);
            assert(c * d - (c - 1) * d == d) by (nonlinear_arith);
        } else {
            assert(stts_total(s) == c + stts_total(s.drop_first()));
            lemma_stts_consecutive(s.drop_first(), n - c);
        }
    }
}

/// The total decode duration of the runs.
pub open spec fn stts_total_time(s: Seq<SttsEntry>) -> int
    decreases s.len(),
{
    if s.len() == 0 {
        0
    } else {
        s.first().sample_count * s.first().sample_delta + stts_total_time(s.drop_first())
    }
}

// Composition offsets over the `ctts` runs.

pub open spec fn ctts_total(s: Seq<CttsEntry>) -> int
    decreases s.len(),
{
    if s.len() == 0 {
        0
    } else {
        s.first().sample_count + ctts_total(s.drop_first())
    }
}

/// The composition offset of sample `n` (1-based); zero past the runs.
pub open spec fn ctts_offset_at(s: Seq<CttsEntry>, n: int) -> int
    decreases s.len(),
{
    if s.len() == 0 {
        0
    } else if n <= s.first().sample_count {
        s.first().sample_offset as int
    } else {
        ctts_offset_at(s.drop_first(), n - s.first().sample_count)
    }
}

// Sizes over the `stsz` table.

impl StszBox {
    /// The size of sample `n` (1-based): the fixed size when one is set,
    /// else the per-sample entry.
    pub open spec fn spec_size_of(&self, n: int) -> int {
        if self.sample_size > 0 {
            self.sample_size as int
        } else {
            self.sample_sizes@[n - 1] as int
        }
    }
}

/// The sum of the sizes of samples `lo .. hi` (1-based, half-open).
pub open spec fn sum_sizes(z: StszBox, lo: int, hi: int) -> int
    decreases hi - lo,
{
    if lo >= hi {
        0
    } else {
        sum_sizes(z, lo, hi - 1) + z.spec_size_of(hi - 1)
    }
}

/// Sums of sizes grow with their upper bound.
pub proof fn lemma_sum_sizes_mono(z: StszBox, lo: int, a: int, b: int)
    requires
        lo <= a <= b,
    ensures
        sum_sizes(z, lo, a) <= sum_sizes(z, lo, b),
    decreases b - a,
{
    if a < b {
        lemma_sum_sizes_mono(z, lo, a, b - 1);
        assert(sum_sizes(z, lo, b) == sum_sizes(z, lo, b - 1) + z.spec_size_of(b - 1));
    }
}


// Locating a sample's chunk through the `stsc` runs.

/// The index of the run that governs sample `n`: the last run whose
/// `first_sample` does not exceed `n`.
pub open spec fn stsc_run(s: Seq<StscEntry>, n: int) -> int
    decreases s.len(),
{
    if s.len() == 0 {
        0
    } else if s.last().first_sample <= n {
        s.len() - 1
    } else {
        stsc_run(s.drop_last(), n)
    }
}

/// The defining properties of the governing run.
pub proof fn lemma_stsc_run_props(s: Seq<StscEntry>, n: int)
    requires
        s.len() > 0,
        s[0].first_sample == 1,
        1 <= n,
    ensures
        0 <= stsc_run(s, n) < s.len(),
        s[stsc_run(s, n)].first_sample <= n,
        stsc_run(s, n) < s.len() - 1 ==> n < s[stsc_run(s, n) + 1].first_sample,
    decreases s.len(),
{
    if s.len() == 1 {
    } else if s.last().first_sample <= n {
    } else {
        lemma_stsc_run_props(s.drop_last(), n);
        let i = stsc_run(s.drop_last(), n);
        assert(s.drop_last()[0] == s[0]);
        if i < s.len() - 2 {
            assert(s.drop_last()[i + 1] == s[i + 1]);
        }
    }
}

impl StscBox {
    /// The runs are well-formed against `chunk_count` chunks: the first
    /// run starts at chunk one and sample one, chunks strictly increase,
    /// every run holds at least one sample per chunk, the derived
    /// `first_sample` fields satisfy their recurrence, and the last run
    /// starts no later than the last chunk.
    pub open spec fn spec_wf(&self, chunk_count: int) -> bool {
        let s = self.entries@;
        &&& (s.len() > 0 ==> s[0].first_chunk == 1 && s[0].first_sample == 1)
        &&& (forall|i: int|
            0 <= i < s.len() - 1 ==> s[i].first_chunk < #[trigger] s[i + 1].first_chunk)
        &&& (forall|i: int| 0 <= i < s.len() ==> #[trigger] s[i].samples_per_chunk >= 1)
        &&& (forall|i: int|
            0 <= i < s.len() - 1 ==> #[trigger] s[i + 1].first_sample == s[i].first_sample + (s[i
                + 1].first_chunk - s[i].first_chunk) * s[i].samples_per_chunk)
        &&& (s.len() > 0 ==> s.last().first_chunk <= chunk_count)
        &&& (s.len() == 0 ==> chunk_count == 0)
    }

    /// The total number of samples the runs cover in `chunk_count` chunks.
    pub open spec fn spec_total(&self, chunk_count: int) -> int {
        let s = self.entries@;
        if s.len() == 0 {
            0
        } else {
            s.last().first_sample - 1 + (chunk_count - s.last().first_chunk + 1)
                * s.last().samples_per_chunk
        }
    }
}

impl StblBox {
    /// How many chunks the track has.
    pub open spec fn spec_chunk_count(&self) -> int {
        match self.co64 {
            Some(c) => c.entries@.len() as int,
            None => match self.stco {
                Some(c) => c.entries@.len() as int,
                None => 0,
            },
        }
    }

    /// The absolute file offset of chunk `c` (1-based).
    pub open spec fn spec_chunk_offset(&self, c: int) -> int {
        match self.co64 {
            Some(t) => t.entries@[c - 1] as int,
            None => match self.stco {
                Some(t) => t.entries@[c - 1] as int,
                None => 0,
            },
        }
    }

    /// The chunk holding sample `n`.
    pub open spec fn spec_chunk_of(&self, n: int) -> int {
        let s = self.stsc.entries@;
        let e = s[stsc_run(s, n)];
        e.first_chunk + (n - e.first_sample) / (e.samples_per_chunk as int)
    }

    /// The first sample of the chunk holding sample `n`.
    pub open spec fn spec_first_in_chunk(&self, n: int) -> int {
        let s = self.stsc.entries@;
        let e = s[stsc_run(s, n)];
        e.first_sample + (self.spec_chunk_of(n) - e.first_chunk) * (e.samples_per_chunk as int)
    }

    /// The absolute file offset of sample `n`: its chunk's base plus the
    /// sizes of the samples before it in the chunk.
    pub open spec fn spec_sample_offset(&self, n: int) -> int {
        self.spec_chunk_offset(self.spec_chunk_of(n)) + sum_sizes(
            self.stsz,
            self.spec_first_in_chunk(n),
            n,
        )
    }

    /// The structural consistency of the tables: one chunk-offset table;
    /// the `stts`, `stsz` and `stsc` sample totals agree; a variable-size
    /// table lists every sample; the sync table is strictly increasing and
    /// within range.
    pub open spec fn consistent(&self) -> bool {
        let count = self.stsz.sample_count as int;
        &&& !(self.stco is Some && self.co64 is Some)
        &&& self.spec_chunk_count() <= u32::MAX
        &&& (self.stco is Some || self.co64 is Some || count == 0)
        &&& stts_total(self.stts.entries@) == count
        &&& self.stsz.sample_size == 0 ==> self.stsz.sample_sizes@.len() == count
        &&& self.stsc.spec_wf(self.spec_chunk_count())
        &&& self.stsc.spec_total(self.spec_chunk_count()) == count
        &&& (match self.stss {
            Some(t) => (forall|i: int|
                0 <= i < t.entries@.len() ==> 1 <= #[trigger] t.entries@[i] <= count) && (
            forall|i: int|
                0 <= i < t.entries@.len() - 1 ==> t.entries@[i] < #[trigger] t.entries@[i + 1]),
            None => true,
        })
        &&& (match self.ctts {
            Some(t) => ctts_total(t.entries@) == count,
            None => true,
        })
    }

    /// The decode timeline fits the machine word.
    pub open spec fn times_fit(&self) -> bool {
        stts_total_time(self.stts.entries@) <= u64::MAX
    }

    /// Every chunk's samples lie within `limit` bytes of the file start.
    pub open spec fn chunks_within(&self, limit: int) -> bool {
        let s = self.stsc.entries@;
        forall|i: int, c: int|
            #![trigger s[i].first_chunk, self.spec_chunk_offset(c)]
            0 <= i < s.len() && s[i].first_chunk <= c && (i < s.len() - 1 ==> c < s[i
                + 1].first_chunk) && c <= self.spec_chunk_count() ==> self.spec_chunk_offset(c)
                + sum_sizes(
                self.stsz,
                s[i].first_sample + (c - s[i].first_chunk) * s[i].samples_per_chunk,
                s[i].first_sample + (c - s[i].first_chunk + 1) * s[i].samples_per_chunk,
            ) <= limit
    }

    pub fn sample_count(&self) -> (r: u32)
        ensures
            r == self.stsz.sample_count,
    {
        self.stsz.sample_count
    }

    /// The size of sample `n`; a sample number of zero or past the table
    /// is rejected.
    pub fn sample_size(&self, n: u32) -> (r: Result<u32, Error>)
        requires
            self.consistent(),
        ensures
            1 <= n <= self.stsz.sample_count ==> (r matches Ok(v) && v == self.stsz.spec_size_of(
                n as int,
            )),
            !(1 <= n <= self.stsz.sample_count) ==> (r matches Err(Error::InvalidData(_))),
    {
        if n == 0 || n > self.stsz.sample_count {
            return Err(Error::InvalidData("sample out of range"));
        }
        if self.stsz.sample_size > 0 {
            Ok(self.stsz.sample_size)
        } else {
            Ok(self.stsz.sample_sizes[(n - 1) as usize])
        }
    }
}


/// Sample counts and durations are sums of non-negative terms.
pub proof fn lemma_stts_total_nonneg(s: Seq<SttsEntry>)
    ensures
        stts_total(s) >= 0,
        stts_total_time(s) >= 0,
    decreases s.len(),
{
    if s.len() > 0 {
        lemma_stts_total_nonneg(s.drop_first());
        let c = s.first().sample_count as int;
        let d = s.first().sample_delta as int;
        assert(c * d >= 0) by (nonlinear_arith)
            requires
                c >= 0,
                d >= 0,
        ;
    }
}

/// The start time never exceeds the total timeline.
pub proof fn lemma_stts_start_le_total(s: Seq<SttsEntry>, n: int)
    requires
        1 <= n <= stts_total(s) + 1,
    ensures
        0 <= stts_start(s, n) <= stts_total_time(s),
        0 <= stts_total_time(s),
    decreases s.len(),
{
    if s.len() == 0 {
    } else {
        let c = s.first().sample_count as int;
        let d = s.first().sample_delta as int;
        lemma_stts_total_nonneg(s.drop_first());
        lemma_stts_start_le_total(s.drop_first(), if n <= c {
            1
        } else {
            n - c
        });
        if n <= c {
            assert(0 <= (n - 1) * d <= c * d) by (nonlinear_arith)
                requires
                    0 <= n - 1 <= c,
                    0 <= d,
            ;
        } else {
            assert(0 <= c * d) by (nonlinear_arith)
                requires
                    0 <= c,
                    0 <= d,
            ;
        }
    }
}


impl StblBox {
    /// The decode start time and delta of sample `n`, by a prefix walk of
    /// the `stts` runs.
    #[verifier::loop_isolation(false)]
    pub fn sample_time(&self, n: u32) -> (r: Result<(u64, u32), Error>)
        requires
            self.consistent(),
            self.times_fit(),
        ensures
            1 <= n <= self.stsz.sample_count ==> (r matches Ok(v) && v.0 == stts_start(
                self.stts.entries@,
                n as int,
            ) && v.1 == stts_delta_at(self.stts.entries@, n as int)),
            !(1 <= n <= self.stsz.sample_count) ==> (r matches Err(Error::InvalidData(_))),
    {
        if n == 0 || n > self.stsz.sample_count {
            return Err(Error::InvalidData("sample out of range"));
        }
        let s = &self.stts.entries;
        let ghost sv = self.stts.entries@;
        let mut elapsed: u64 = 0;
        let mut left: u32 = n;
        let mut i: usize = 0;
        proof {
            assert(sv.skip(0int) =~= sv);
            lemma_stts_start_le_total(sv, n as int);
        }
        while i < s.len()
            invariant
                0 <= i <= sv.len(),
                1 <= left,
                stts_start(sv, n as int) == elapsed + stts_start(sv.skip(i as int), left as int),
                stts_delta_at(sv, n as int) == stts_delta_at(sv.skip(i as int), left as int),
                left <= stts_total(sv.skip(i as int)),
                elapsed + stts_total_time(sv.skip(i as int)) <= u64::MAX,
            decreases sv.len() - i,
        {
            let e = s[i];
            proof {
                assert(sv.skip(i as int).first() == sv[i as int]);
                assert(sv.skip(i as int).drop_first() =~= sv.skip(i + 1));
                lemma_stts_total_nonneg(sv.skip(i + 1));
                lemma_stts_start_le_total(sv.skip(i as int), left as int);
            }
            if left <= e.sample_count {
                proof {
                    assert(0 <= (left - 1) * e.sample_delta <= e.sample_count * e.sample_delta)
                        by (nonlinear_arith)
                        requires
                            0 <= left - 1 < e.sample_count as int || (0 <= left - 1
                                && left as int == e.sample_count as int),
                            0 <= e.sample_delta,
                    ;
                }
                let add: u64 = ((left - 1) as u64) * (e.sample_delta as u64);
                return Ok((elapsed + add, e.sample_delta));
            }
            proof {
                assert(0 <= e.sample_count * e.sample_delta) by (nonlinear_arith)
                    requires
                        0 <= e.sample_count,
                        0 <= e.sample_delta,
                ;
            }
            elapsed = elapsed + (e.sample_count as u64) * (e.sample_delta as u64);
            left = left - e.sample_count;
            i = i + 1;
            proof {
                lemma_stts_start_le_total(sv.skip(i as int), left as int);
            }
        }
        proof {
            assert(sv.skip(sv.len() as int) =~= Seq::<SttsEntry>::empty());
            lemma_stts_total_nonneg(sv.skip(sv.len() as int));
            assert(false);
        }
        Err(Error::InvalidData("sample out of range"))
    }

    /// The composition offset of sample `n`: a prefix walk of the `ctts`
    /// runs, zero when the table is absent.
    #[verifier::loop_isolation(false)]
    pub fn rendering_offset(&self, n: u32) -> (r: i32)
        requires
            n >= 1,
        ensures
            (match self.ctts {
                Some(t) => r == ctts_offset_at(t.entries@, n as int),
                None => r == 0,
            }),
    {
        let t = match &self.ctts {
            Some(t) => t,
            None => {
                return 0;
            },
        };
        let ghost sv = t.entries@;
        let mut left: u32 = n;
        let mut i: usize = 0;
        proof {
            assert(sv.skip(0int) =~= sv);
        }
        while i < t.entries.len()
            invariant
                0 <= i <= sv.len(),
                1 <= left,
                ctts_offset_at(sv, n as int) == ctts_offset_at(sv.skip(i as int), left as int),
            decreases sv.len() - i,
        {
            let e = t.entries[i];
            proof {
                assert(sv.skip(i as int).first() == sv[i as int]);
                assert(sv.skip(i as int).drop_first() =~= sv.skip(i + 1));
            }
            if left <= e.sample_count {
                return e.sample_offset;
            }
            left = left - e.sample_count;
            i = i + 1;
        }
        proof {
            assert(sv.skip(sv.len() as int) =~= Seq::<CttsEntry>::empty());
        }
        0
    }

    /// Whether sample `n` is a sync sample: listed in `stss`, or every
    /// sample when the table is absent.
    #[verifier::loop_isolation(false)]
    pub fn is_sync(&self, n: u32) -> (r: bool)
        ensures
            (match self.stss {
                Some(t) => r == t.entries@.contains(n),
                None => r == true,
            }),
    {
        let t = match &self.stss {
            Some(t) => t,
            None => {
                return true;
            },
        };
        let mut i: usize = 0;
        while i < t.entries.len()
            invariant
                0 <= i <= t.entries@.len(),
                forall|j: int| 0 <= j < i ==> t.entries@[j] != n,
            decreases t.entries@.len() - i,
        {
            if t.entries[i] == n {
                assert(t.entries@.contains(n));
                return true;
            }
            i = i + 1;
        }
        proof {
            assert(!t.entries@.contains(n));
        }
        false
    }

    /// The index of the `stsc` run that governs sample `n`.
    #[verifier::loop_isolation(false)]
    pub fn stsc_index(&self, n: u32) -> (r: usize)
        requires
            self.consistent(),
            1 <= n <= self.stsz.sample_count,
            self.stsz.sample_count >= 1,
        ensures
            r == stsc_run(self.stsc.entries@, n as int),
            r < self.stsc.entries@.len(),
    {
        let s = &self.stsc.entries;
        let ghost sv = self.stsc.entries@;
        proof {
            if sv.len() == 0 {
                assert(self.stsc.spec_total(self.spec_chunk_count()) == 0);
                assert(false);
            }
            lemma_stsc_run_props(sv, n as int);
            assert(sv.take(sv.len() as int) =~= sv);
        }
        let mut i: usize = s.len();
        while i > 0
            invariant
                0 <= i <= sv.len(),
                stsc_run(sv, n as int) == stsc_run(sv.take(i as int), n as int),
                forall|j: int| i <= j < sv.len() ==> n < #[trigger] sv[j].first_sample,
            decreases i,
        {
            i = i - 1;
            proof {
                assert(sv.take(i + 1).last() == sv[i as int]);
                assert(sv.take(i + 1).drop_last() =~= sv.take(i as int));
            }
            if s[i].first_sample <= n {
                return i;
            }
        }
        proof {
            assert(sv[0].first_sample == 1);
            assert(false);
        }
        0
    }

    /// The sample description index of sample `n`, from its `stsc` run.
    pub fn description_index(&self, n: u32) -> (r: Result<u32, Error>)
        requires
            self.consistent(),
        ensures
            1 <= n <= self.stsz.sample_count ==> (r matches Ok(v) && v == self.stsc.entries@[
                stsc_run(self.stsc.entries@, n as int)
            ].sample_description_index),
            !(1 <= n <= self.stsz.sample_count) ==> (r matches Err(Error::InvalidData(_))),
    {
        if n == 0 || n > self.stsz.sample_count {
            return Err(Error::InvalidData("sample out of range"));
        }
        let i = self.stsc_index(n);
        Ok(self.stsc.entries[i].sample_description_index)
    }
}


/// Division facts for locating a sample inside its chunk: with
/// `q = a / d` and `0 <= a`, `d >= 1`, the quotient picks the unique
/// window `q*d <= a < (q+1)*d`, and `a < k*d` bounds `q < k`.
proof fn lemma_div_window(a: int, d: int)
    requires
        0 <= a,
        1 <= d,
    ensures
        (a / d) * d <= a < ((a / d) + 1) * d,
        0 <= a / d,
{
    vstd::arithmetic::div_mod::lemma_fundamental_div_mod(a, d);
    vstd::arithmetic::div_mod::lemma_mod_division_less_than_divisor(a, d);
    let q = a / d;
    let r = a % d;
    assert(a == d * q + r);
    assert(q * d == d * q) by (nonlinear_arith);
    assert((q + 1) * d == d * q + d) by (nonlinear_arith);
    if q < 0 {
        assert(d * q <= -d) by (nonlinear_arith)
            requires
                q <= -1,
                d >= 1,
        ;
    }
}

proof fn lemma_div_below(a: int, d: int, k: int)
    requires
        0 <= a,
        1 <= d,
        a < k * d,
    ensures
        a / d < k,
{
    lemma_div_window(a, d);
    let q = a / d;
    if q >= k {
        assert(q * d >= k * d) by (nonlinear_arith)
            requires
                q >= k,
                d >= 1,
        ;
    }
}



/// First samples stay at or above one across runs.
proof fn lemma_stsc_fs_pos(s: Seq<StscEntry>, i: int)
    requires
        s.len() > 0,
        s[0].first_sample == 1,
        forall|k: int| 0 <= k < s.len() - 1 ==> s[k].first_chunk < #[trigger] s[k + 1].first_chunk,
        forall|k: int| 0 <= k < s.len() ==> #[trigger] s[k].samples_per_chunk >= 1,
        forall|k: int|
            0 <= k < s.len() - 1 ==> #[trigger] s[k + 1].first_sample == s[k].first_sample + (s[k
                + 1].first_chunk - s[k].first_chunk) * s[k].samples_per_chunk,
        0 <= i < s.len(),
    ensures
        s[i].first_sample >= 1,
    decreases i,
{
    if i > 0 {
        lemma_stsc_fs_pos(s, i - 1);
        assert(s[(i - 1) + 1].first_chunk > s[i - 1].first_chunk);
        assert(s[(i - 1) + 1].first_sample == s[i - 1].first_sample + (s[(i - 1)
            + 1].first_chunk - s[i - 1].first_chunk) * s[i - 1].samples_per_chunk);
        let diff = s[i].first_chunk - s[i - 1].first_chunk;
        let d = s[i - 1].samples_per_chunk as int;
        assert(diff * d >= 0) by (nonlinear_arith)
            requires
                diff >= 1,
                d >= 1,
        ;
    }
}

/// First chunks increase across runs.
proof fn lemma_stsc_fc_mono(s: Seq<StscEntry>, i: int, j: int)
    requires
        forall|k: int| 0 <= k < s.len() - 1 ==> s[k].first_chunk < #[trigger] s[k + 1].first_chunk,
        0 <= i <= j < s.len(),
    ensures
        s[i].first_chunk <= s[j].first_chunk,
    decreases j - i,
{
    if i < j {
        lemma_stsc_fc_mono(s, i + 1, j);
        assert(s[i].first_chunk < s[i + 1].first_chunk);
    }
}

impl StblBox {
    /// Sample `n` lies inside its chunk's span, and that span is within
    /// any limit that bounds every chunk; in particular, with the file
    /// size as the limit, `sample_offset(n) + sample_size(n)` stays
    /// within the file.
    pub proof fn lemma_sample_within(&self, n: int, limit: int)
        requires
            self.consistent(),
            self.chunks_within(limit),
            1 <= n <= self.stsz.sample_count,
        ensures
            0 <= sum_sizes(self.stsz, self.spec_first_in_chunk(n), n),
            self.spec_sample_offset(n) + self.stsz.spec_size_of(n) <= limit,
            self.stsc.entries@[stsc_run(self.stsc.entries@, n)].first_chunk <= self.spec_chunk_of(
                n,
            ) <= self.spec_chunk_count(),
            1 <= self.spec_chunk_of(n),
            self.spec_first_in_chunk(n) <= n,
            self.spec_first_in_chunk(n) >= 1,
    {
        let s = self.stsc.entries@;
        let cc = self.spec_chunk_count();
        let count = self.stsz.sample_count as int;
        if s.len() == 0 {
            assert(self.stsc.spec_total(cc) == 0);
            assert(false);
        }
        lemma_stsc_run_props(s, n);
        let i = stsc_run(s, n);
        let e = s[i];
        let fs = e.first_sample as int;
        let fc = e.first_chunk as int;
        let d = e.samples_per_chunk as int;
        let q = (n - fs) / d;
        let c = fc + q;
        lemma_div_window(n - fs, d);
        // the chunk is inside the run's window
        assert((q + 1) * d == q * d + d) by (nonlinear_arith);
        if i < s.len() - 1 {
            let nxt = s[i + 1];
            assert(nxt.first_sample == fs + (nxt.first_chunk - fc) * d);
            lemma_div_below(n - fs, d, nxt.first_chunk - fc);
            assert(c < nxt.first_chunk);
            lemma_stsc_fc_mono(s, i + 1, s.len() - 1);
            assert(c <= cc);
        } else {
            assert(self.stsc.spec_total(cc) == fs - 1 + (cc - fc + 1) * d);
            lemma_div_below(n - fs, d, cc - fc + 1);
            assert(c <= cc);
        }
        lemma_stsc_fc_mono(s, 0, i);
        assert(1 <= fc);
        let base = self.spec_chunk_offset(c);
        let lo = fs + q * d;
        assert(q * d >= 0) by (nonlinear_arith)
            requires
                q >= 0,
                d >= 1,
        ;
        assert(lo == self.spec_first_in_chunk(n));
        lemma_stsc_fs_pos(s, i);
        assert(lo >= 1);
        assert(lo <= n < lo + d);
        // the whole chunk stays within the limit
        assert(base + sum_sizes(self.stsz, fs + (c - fc) * d, fs + (c - fc + 1) * d) <= limit);
        assert(fs + (c - fc) * d == lo);
        assert((c - fc + 1) * d == q * d + d) by (nonlinear_arith)
            requires
                c - fc == q,
        ;
        assert(sum_sizes(self.stsz, lo, n + 1) == sum_sizes(self.stsz, lo, n)
            + self.stsz.spec_size_of(n));
        lemma_sum_sizes_mono(self.stsz, lo, n + 1, lo + d);
        lemma_sum_sizes_nonneg(self.stsz, lo, n);
    }

    /// The absolute byte offset of sample `n`: the chunk base offset plus
    /// the sizes of the earlier samples of the chunk.
    #[verifier::loop_isolation(false)]
    #[verifier::rlimit(100)]
    pub fn sample_offset(&self, n: u32) -> (r: Result<u64, Error>)
        requires
            self.consistent(),
            self.chunks_within(u64::MAX as int),
        ensures
            1 <= n <= self.stsz.sample_count ==> (r matches Ok(v) && v == self.spec_sample_offset(
                n as int,
            )),
            !(1 <= n <= self.stsz.sample_count) ==> (r matches Err(Error::InvalidData(_))),
    {
        if n == 0 || n > self.stsz.sample_count {
            return Err(Error::InvalidData("sample out of range"));
        }
        proof {
            self.lemma_sample_within(n as int, u64::MAX as int);
        }
        let i = self.stsc_index(n);
        let e = self.stsc.entries[i];
        let q: u32 = (n - e.first_sample) / e.samples_per_chunk;
        let chunk: u32 = e.first_chunk + q;
        let base: u64 = match &self.co64 {
            Some(t) => t.entries[(chunk - 1) as usize],
            None => match &self.stco {
                Some(t) => t.entries[(chunk - 1) as usize] as u64,
                None => {
                    proof {
                        assert(false);
                    }
                    return Err(Error::InvalidData("no chunk offsets"));
                },
            },
        };
        let first_in_chunk: u32 = e.first_sample + q * e.samples_per_chunk;
        let ghost lo = first_in_chunk as int;
        let mut acc: u64 = base;
        let mut k: u32 = first_in_chunk;
        proof {
            lemma_sum_sizes_nonneg(self.stsz, lo, lo);
        }
        while k < n
            invariant
                first_in_chunk <= k <= n,
                acc == self.spec_chunk_offset(self.spec_chunk_of(n as int)) + sum_sizes(
                    self.stsz,
                    lo,
                    k as int,
                ),
                acc <= u64::MAX,
            decreases n - k,
        {
            proof {
                lemma_sum_sizes_mono(self.stsz, lo, k + 1, n as int);
                lemma_sum_sizes_nonneg(self.stsz, lo, k as int);
            }
            let sz = if self.stsz.sample_size > 0 {
                self.stsz.sample_size
            } else {
                self.stsz.sample_sizes[(k - 1) as usize]
            };
            acc = acc + sz as u64;
            k = k + 1;
        }
        Ok(acc)
    }
}

/// Sums of sizes are non-negative.
pub proof fn lemma_sum_sizes_nonneg(z: StszBox, lo: int, hi: int)
    ensures
        sum_sizes(z, lo, hi) >= 0,
    decreases hi - lo,
{
    if lo < hi {
        lemma_sum_sizes_nonneg(z, lo, hi - 1);
    }
}


// Wire form of the table boxes. Each is a full box: version, flags, an
// entry count, then fixed-stride entries.

/// Serialization of a run list, 8 bytes per entry.
pub open spec fn spec_stts_entries_bytes(s: Seq<SttsEntry>) -> Seq<u8>
    decreases s.len(),
{
    if s.len() == 0 {
        Seq::empty()
    } else {
        spec_stts_entries_bytes(s.drop_last()) + u32_be(s.last().sample_count) + u32_be(
            s.last().sample_delta,
        )
    }
}

pub proof fn lemma_stts_entries_bytes_len(s: Seq<SttsEntry>)
    ensures
        spec_stts_entries_bytes(s).len() == 8 * s.len(),
    decreases s.len(),
{
    if s.len() > 0 {
        lemma_stts_entries_bytes_len(s.drop_last());
    }
}

/// What an `stts` payload (the bytes after the header) means: version,
/// flags, and the declared number of 8-byte runs, which must fit inside
/// the payload; trailing bytes are tolerated.
pub open spec fn spec_parse_stts(data: Seq<u8>) -> Option<(u8, u32, Seq<SttsEntry>)> {
    if data.len() < 8 {
        None
    } else {
        let count = be32(data[4], data[5], data[6], data[7]) as int;
        if data.len() - 8 < 8 * count {
            None
        } else {
            Some(
                (
                    data[0],
                    crate::bigend::be24(data[1], data[2], data[3]),
                    Seq::new(
                        count as nat,
                        |k: int|
                            SttsEntry {
                                sample_count: be32(
                                    data[8 + 8 * k],
                                    data[9 + 8 * k],
                                    data[10 + 8 * k],
                                    data[11 + 8 * k],
                                ),
                                sample_delta: be32(
                                    data[12 + 8 * k],
                                    data[13 + 8 * k],
                                    data[14 + 8 * k],
                                    data[15 + 8 * k],
                                ),
                            },
                    ),
                ),
            )
        }
    }
}

impl SttsBox {
    pub open spec fn wf(&self) -> bool {
        &&& self.flags < 0x1000000
        &&& self.entries@.len() <= u32::MAX
        &&& 16 + 8 * self.entries@.len() <= u32::MAX
    }

    pub open spec fn spec_size(&self) -> int {
        HEADER_SIZE + HEADER_EXT_SIZE + 4 + 8 * self.entries@.len()
    }

    pub open spec fn spec_bytes(&self) -> Seq<u8> {
        BoxHeader { name: BoxType::SttsBox, size: self.spec_size() as u64 }.spec_bytes()
            + spec_ext_bytes(self.version, self.flags) + u32_be(self.entries@.len() as u32)
            + spec_stts_entries_bytes(self.entries@)
    }

    pub fn box_size(&self) -> (r: u64)
        requires
            self.wf(),
        ensures
            r == self.spec_size(),
    {
        HEADER_SIZE + HEADER_EXT_SIZE + 4 + 8 * (self.entries.len() as u64)
    }

    pub fn write_box(&self, out: &mut Vec<u8>) -> (r: Result<u64, Error>)
        requires
            self.wf(),
        ensures
            final(out)@ == old(out)@ + self.spec_bytes(),
            r == Ok::<u64, Error>(self.spec_size() as u64),
    {
        proof {
            lemma_stts_entries_bytes_len(self.entries@);
        }
        let size = self.box_size();
        let header = BoxHeader::new(BoxType::SttsBox, size);
        let _ = header.write(out);
        let _ = write_box_header_ext(out, self.version, self.flags);
        put_u32(out, self.entries.len() as u32);
        let ghost mid = out@;
        let mut i: usize = 0;
        while i < self.entries.len()
            invariant
                i <= self.entries@.len(),
                out@ == mid + spec_stts_entries_bytes(self.entries@.take(i as int)),
            decreases self.entries@.len() - i,
        {
            let e = self.entries[i];
            put_u32(out, e.sample_count);
            put_u32(out, e.sample_delta);
            proof {
                let nxt = self.entries@.take(i + 1);
                assert(nxt.drop_last() =~= self.entries@.take(i as int));
                assert(nxt.last() == self.entries@[i as int]);
                assert(out@ =~= mid + spec_stts_entries_bytes(nxt));
            }
            i = i + 1;
        }
        proof {
            assert(self.entries@.take(self.entries@.len() as int) =~= self.entries@);
            assert(out@ =~= old(out)@ + self.spec_bytes());
        }
        Ok(size)
    }

    /// Reads the payload of an `stts` box; `pos` stands just after the
    /// header.
    pub fn read_box(buf: &Vec<u8>, pos: usize, size: u64) -> (r: Result<(SttsBox, usize), Error>)
        requires
            pos >= 8,
            pos - 8 + size <= usize::MAX,
        ensures
            r matches Ok(v) ==> size >= 8 && pos - 8 + size <= buf@.len() && (
            match spec_parse_stts(buf@.subrange(pos as int, pos - 8 + size)) {
                Some(p) => v.0.version == p.0 && v.0.flags == p.1 && v.0.entries@ == p.2 && v.1
                    == pos - 8 + size,
                None => false,
            }),
            size >= 8 && pos - 8 + size <= buf@.len() && spec_parse_stts(
                buf@.subrange(pos as int, pos - 8 + size),
            ) is Some ==> r is Ok,
    {
        if size < 8 {
            return Err(Error::IoError);
        }
        let end = (pos - 8) + (size as usize);
        if end > buf.len() {
            return Err(Error::IoError);
        }
        if end - pos < 8 {
            return Err(Error::IoError);
        }
        let ghost data = buf@.subrange(pos as int, end as int);
        proof {
            assert(forall|k: int| 0 <= k < data.len() ==> data[k] == buf@[pos + k]);
        }
        let ((version, flags), p0) = match read_box_header_ext(buf, pos) {
            Ok(v) => v,
            Err(e) => { return Err(e); },
        };
        let (count, p1) = match read_u32(buf, p0) {
            Ok(v) => v,
            Err(e) => { return Err(e); },
        };
        proof {
            lemma_div_window((end - p1) as int, 8);
        }
        if (end - p1) / 8 < count as usize {
            return Err(Error::IoError);
        }
        let mut entries: Vec<SttsEntry> = Vec::new();
        let mut i: usize = 0;
        while i < count as usize
            invariant
                pos >= 8,
                p1 == pos + 8,
                p1 + 8 * (count as int) <= end <= buf@.len(),
                i <= count as usize,
                data == buf@.subrange(pos as int, end as int),
                entries@.len() == i,
                forall|k: int|
                    0 <= k < i ==> entries@[k] == (SttsEntry {
                        sample_count: be32(
                            data[8 + 8 * k],
                            data[9 + 8 * k],
                            data[10 + 8 * k],
                            data[11 + 8 * k],
                        ),
                        sample_delta: be32(
                            data[12 + 8 * k],
                            data[13 + 8 * k],
                            data[14 + 8 * k],
                            data[15 + 8 * k],
                        ),
                    }),
            decreases count as int - i,
        {
            let (sample_count, q) = match read_u32(buf, p1 + 8 * i) {
                Ok(v) => v,
                Err(e) => { return Err(e); },
            };
            let (sample_delta, _) = match read_u32(buf, q) {
                Ok(v) => v,
                Err(e) => { return Err(e); },
            };
            entries.push(SttsEntry { sample_count, sample_delta });
            i = i + 1;
        }
        proof {
            let p = spec_parse_stts(data).unwrap();
            assert(entries@ =~= p.2);
        }
        Ok((SttsBox { version, flags, entries }, end))
    }
}


/// Serialization of the `ctts` entry list, 8 bytes per entry.
pub open spec fn spec_ctts_entries_bytes(s: Seq<CttsEntry>) -> Seq<u8>
    decreases s.len(),
{
    if s.len() == 0 {
        Seq::empty()
    } else {
        spec_ctts_entries_bytes(s.drop_last()) + u32_be(s.last().sample_count) + u32_be(s.last().sample_offset as u32)
    }
}

pub proof fn lemma_ctts_entries_bytes_len(s: Seq<CttsEntry>)
    ensures
        spec_ctts_entries_bytes(s).len() == 8 * s.len(),
    decreases s.len(),
{
    if s.len() > 0 {
        lemma_ctts_entries_bytes_len(s.drop_last());
    }
}

/// What a `ctts` payload (the bytes after the header) means: version,
/// flags, and the declared number of 8-byte runs, which must fit inside
/// the payload; trailing bytes are tolerated.
pub open spec fn spec_parse_ctts(data: Seq<u8>) -> Option<(u8, u32, Seq<CttsEntry>)> {
    if data.len() < 8 {
        None
    } else {
        let count = be32(data[4], data[5], data[6], data[7]) as int;
        if data.len() - 8 < 8 * count {
            None
        } else {
            Some(
                (
                    data[0],
                    crate::bigend::be24(data[1], data[2], data[3]),
                    Seq::new(
                        count as nat,
                        |k: int|
                            CttsEntry {
                                sample_count: be32(
                                    data[8 + 8 * k],
                                    data[9 + 8 * k],
                                    data[10 + 8 * k],
                                    data[11 + 8 * k],
                                ),
                                sample_offset: be32(
                                    data[12 + 8 * k],
                                    data[13 + 8 * k],
                                    data[14 + 8 * k],
                                    data[15 + 8 * k],
                                ) as i32,
                            },
                    ),
                ),
            )
        }
    }
}

impl CttsBox {
    pub open spec fn wf(&self) -> bool {
        &&& self.flags < 0x1000000
        &&& self.entries@.len() <= u32::MAX
        &&& 16 + 8 * self.entries@.len() <= u32::MAX
    }

    pub open spec fn spec_size(&self) -> int {
        HEADER_SIZE + HEADER_EXT_SIZE + 4 + 8 * self.entries@.len()
    }

    pub open spec fn spec_bytes(&self) -> Seq<u8> {
        BoxHeader { name: BoxType::CttsBox, size: self.spec_size() as u64 }.spec_bytes()
            + spec_ext_bytes(self.version, self.flags) + u32_be(self.entries@.len() as u32)
            + spec_ctts_entries_bytes(self.entries@)
    }

    pub fn box_size(&self) -> (r: u64)
        requires
            self.wf(),
        ensures
            r == self.spec_size(),
    {
        HEADER_SIZE + HEADER_EXT_SIZE + 4 + 8 * (self.entries.len() as u64)
    }

    pub fn write_box(&self, out: &mut Vec<u8>) -> (r: Result<u64, Error>)
        requires
            self.wf(),
        ensures
            final(out)@ == old(out)@ + self.spec_bytes(),
            r == Ok::<u64, Error>(self.spec_size() as u64),
    {
        proof {
            lemma_ctts_entries_bytes_len(self.entries@);
        }
        let size = self.box_size();
        let header = BoxHeader::new(BoxType::CttsBox, size);
        let _ = header.write(out);
        let _ = write_box_header_ext(out, self.version, self.flags);
        put_u32(out, self.entries.len() as u32);
        let ghost mid = out@;
        let mut i: usize = 0;
        while i < self.entries.len()
            invariant
                i <= self.entries@.len(),
                out@ == mid + spec_ctts_entries_bytes(self.entries@.take(i as int)),
            decreases self.entries@.len() - i,
        {
            let e = self.entries[i];
            put_u32(out, e.sample_count);
            put_u32(out, e.sample_offset as u32);
            proof {
                let nxt = self.entries@.take(i + 1);
                assert(nxt.drop_last() =~= self.entries@.take(i as int));
                assert(nxt.last() == self.entries@[i as int]);
                assert(out@ =~= mid + spec_ctts_entries_bytes(nxt));
            }
            i = i + 1;
        }
        proof {
            assert(self.entries@.take(self.entries@.len() as int) =~= self.entries@);
            assert(out@ =~= old(out)@ + self.spec_bytes());
        }
        Ok(size)
    }

    /// Reads the payload of the box; `pos` stands just after the header.
    pub fn read_box(buf: &Vec<u8>, pos: usize, size: u64) -> (r: Result<(CttsBox, usize), Error>)
        requires
            pos >= 8,
            pos - 8 + size <= usize::MAX,
        ensures
            r matches Ok(v) ==> size >= 8 && pos - 8 + size <= buf@.len() && (
            match spec_parse_ctts(buf@.subrange(pos as int, pos - 8 + size)) {
                Some(p) => v.0.version == p.0 && v.0.flags == p.1 && v.0.entries@ == p.2 && v.1
                    == pos - 8 + size,
                None => false,
            }),
            size >= 8 && pos - 8 + size <= buf@.len() && spec_parse_ctts(
                buf@.subrange(pos as int, pos - 8 + size),
            ) is Some ==> r is Ok,
    {
        if size < 8 {
            return Err(Error::IoError);
        }
        let end = (pos - 8) + (size as usize);
        if end > buf.len() {
            return Err(Error::IoError);
        }
        if end - pos < 8 {
            return Err(Error::IoError);
        }
        let ghost data = buf@.subrange(pos as int, end as int);
        proof {
            assert(forall|k: int| 0 <= k < data.len() ==> data[k] == buf@[pos + k]);
        }
        let ((version, flags), p0) = match read_box_header_ext(buf, pos) {
            Ok(v) => v,
            Err(e) => { return Err(e); },
        };
        let (count, p1) = match read_u32(buf, p0) {
            Ok(v) => v,
            Err(e) => { return Err(e); },
        };
        proof {
            lemma_div_window((end - p1) as int, 8);
        }
        if (end - p1) / 8 < count as usize {
            return Err(Error::IoError);
        }
        let mut entries: Vec<CttsEntry> = Vec::new();
        let mut i: usize = 0;
        while i < count as usize
            invariant
                pos >= 8,
                p1 == pos + 8,
                p1 + 8 * (count as int) <= end <= buf@.len(),
                i <= count as usize,
                data == buf@.subrange(pos as int, end as int),
                entries@.len() == i,
                forall|k: int|
                    0 <= k < i ==> entries@[k] == (CttsEntry {
                        sample_count: be32(
                            data[8 + 8 * k],
                            data[9 + 8 * k],
                            data[10 + 8 * k],
                            data[11 + 8 * k],
                        ),
                        sample_offset: be32(
                            data[12 + 8 * k],
                            data[13 + 8 * k],
                            data[14 + 8 * k],
                            data[15 + 8 * k],
                        ) as i32,
                    }),
            decreases count as int - i,
        {
            let (sample_count, q) = match read_u32(buf, p1 + 8 * i) {
                Ok(v) => v,
                Err(e) => { return Err(e); },
            };
            let (off_bits, _) = match read_u32(buf, q) {
                Ok(v) => v,
                Err(e) => { return Err(e); },
            };
            entries.push(CttsEntry { sample_count, sample_offset: off_bits as i32 });
            i = i + 1;
        }
        proof {
            let p = spec_parse_ctts(data).unwrap();
            assert(entries@ =~= p.2);
        }
        Ok((CttsBox { version, flags, entries }, end))
    }
}


/// Serialization of the `stss` entry list, 4 bytes per entry.
pub open spec fn spec_stss_entries_bytes(s: Seq<u32>) -> Seq<u8>
    decreases s.len(),
{
    if s.len() == 0 {
        Seq::empty()
    } else {
        spec_stss_entries_bytes(s.drop_last()) + u32_be(s.last())
    }
}

pub proof fn lemma_stss_entries_bytes_len(s: Seq<u32>)
    ensures
        spec_stss_entries_bytes(s).len() == 4 * s.len(),
    decreases s.len(),
{
    if s.len() > 0 {
        lemma_stss_entries_bytes_len(s.drop_last());
    }
}

/// What an `stss` or `stco` payload (the bytes after the header) means:
/// version, flags, and the declared number of 4-byte entries, which must
/// fit inside the payload; trailing bytes are tolerated.
pub open spec fn spec_parse_u32_table(data: Seq<u8>) -> Option<(u8, u32, Seq<u32>)> {
    if data.len() < 8 {
        None
    } else {
        let count = be32(data[4], data[5], data[6], data[7]) as int;
        if data.len() - 8 < 4 * count {
            None
        } else {
            Some(
                (
                    data[0],
                    crate::bigend::be24(data[1], data[2], data[3]),
                    Seq::new(
                        count as nat,
                        |k: int|
                            be32(
                                data[8 + 4 * k],
                                data[9 + 4 * k],
                                data[10 + 4 * k],
                                data[11 + 4 * k],
                            ),
                    ),
                ),
            )
        }
    }
}

impl StssBox {
    pub open spec fn wf(&self) -> bool {
        &&& self.flags < 0x1000000
        &&& self.entries@.len() <= u32::MAX
        &&& 16 + 4 * self.entries@.len() <= u32::MAX
    }

    pub open spec fn spec_size(&self) -> int {
        HEADER_SIZE + HEADER_EXT_SIZE + 4 + 4 * self.entries@.len()
    }

    pub open spec fn spec_bytes(&self) -> Seq<u8> {
        BoxHeader { name: BoxType::StssBox, size: self.spec_size() as u64 }.spec_bytes()
            + spec_ext_bytes(self.version, self.flags) + u32_be(self.entries@.len() as u32)
            + spec_stss_entries_bytes(self.entries@)
    }

    pub fn box_size(&self) -> (r: u64)
        requires
            self.wf(),
        ensures
            r == self.spec_size(),
    {
        HEADER_SIZE + HEADER_EXT_SIZE + 4 + 4 * (self.entries.len() as u64)
    }

    pub fn write_box(&self, out: &mut Vec<u8>) -> (r: Result<u64, Error>)
        requires
            self.wf(),
        ensures
            final(out)@ == old(out)@ + self.spec_bytes(),
            r == Ok::<u64, Error>(self.spec_size() as u64),
    {
        proof {
            lemma_stss_entries_bytes_len(self.entries@);
        }
        let size = self.box_size();
        let header = BoxHeader::new(BoxType::StssBox, size);
        let _ = header.write(out);
        let _ = write_box_header_ext(out, self.version, self.flags);
        put_u32(out, self.entries.len() as u32);
        let ghost mid = out@;
        let mut i: usize = 0;
        while i < self.entries.len()
            invariant
                i <= self.entries@.len(),
                out@ == mid + spec_stss_entries_bytes(self.entries@.take(i as int)),
            decreases self.entries@.len() - i,
        {
            let e = self.entries[i];
            put_u32(out, e);
            proof {
                let nxt = self.entries@.take(i + 1);
                assert(nxt.drop_last() =~= self.entries@.take(i as int));
                assert(nxt.last() == self.entries@[i as int]);
                assert(out@ =~= mid + spec_stss_entries_bytes(nxt));
            }
            i = i + 1;
        }
        proof {
            assert(self.entries@.take(self.entries@.len() as int) =~= self.entries@);
            assert(out@ =~= old(out)@ + self.spec_bytes());
        }
        Ok(size)
    }

    /// Reads the payload of the box; `pos` stands just after the header.
    pub fn read_box(buf: &Vec<u8>, pos: usize, size: u64) -> (r: Result<(StssBox, usize), Error>)
        requires
            pos >= 8,
            pos - 8 + size <= usize::MAX,
        ensures
            r matches Ok(v) ==> size >= 8 && pos - 8 + size <= buf@.len() && (
            match spec_parse_u32_table(buf@.subrange(pos as int, pos - 8 + size)) {
                Some(p) => v.0.version == p.0 && v.0.flags == p.1 && v.0.entries@ == p.2 && v.1
                    == pos - 8 + size,
                None => false,
            }),
            size >= 8 && pos - 8 + size <= buf@.len() && spec_parse_u32_table(
                buf@.subrange(pos as int, pos - 8 + size),
            ) is Some ==> r is Ok,
    {
        if size < 8 {
            return Err(Error::IoError);
        }
        let end = (pos - 8) + (size as usize);
        if end > buf.len() {
            return Err(Error::IoError);
        }
        if end - pos < 8 {
            return Err(Error::IoError);
        }
        let ghost data = buf@.subrange(pos as int, end as int);
        proof {
            assert(forall|k: int| 0 <= k < data.len() ==> data[k] == buf@[pos + k]);
        }
        let ((version, flags), p0) = match read_box_header_ext(buf, pos) {
            Ok(v) => v,
            Err(e) => { return Err(e); },
        };
        let (count, p1) = match read_u32(buf, p0) {
            Ok(v) => v,
            Err(e) => { return Err(e); },
        };
        proof {
            lemma_div_window((end - p1) as int, 4);
        }
        if (end - p1) / 4 < count as usize {
            return Err(Error::IoError);
        }
        let mut entries: Vec<u32> = Vec::new();
        let mut i: usize = 0;
        while i < count as usize
            invariant
                pos >= 8,
                p1 == pos + 8,
                p1 + 4 * (count as int) <= end <= buf@.len(),
                i <= count as usize,
                data == buf@.subrange(pos as int, end as int),
                entries@.len() == i,
                forall|k: int|
                    0 <= k < i ==> entries@[k] == be32(
                        data[8 + 4 * k],
                        data[9 + 4 * k],
                        data[10 + 4 * k],
                        data[11 + 4 * k],
                    ),
            decreases count as int - i,
        {
            let (entry, _) = match read_u32(buf, p1 + 4 * i) {
                Ok(v) => v,
                Err(e) => { return Err(e); },
            };
            entries.push(entry);
            i = i + 1;
        }
        proof {
            let p = spec_parse_u32_table(data).unwrap();
            assert(entries@ =~= p.2);
        }
        Ok((StssBox { version, flags, entries }, end))
    }
}


/// Serialization of the `stco` entry list, 4 bytes per entry.
pub open spec fn spec_stco_entries_bytes(s: Seq<u32>) -> Seq<u8>
    decreases s.len(),
{
    if s.len() == 0 {
        Seq::empty()
    } else {
        spec_stco_entries_bytes(s.drop_last()) + u32_be(s.last())
    }
}

pub proof fn lemma_stco_entries_bytes_len(s: Seq<u32>)
    ensures
        spec_stco_entries_bytes(s).len() == 4 * s.len(),
    decreases s.len(),
{
    if s.len() > 0 {
        lemma_stco_entries_bytes_len(s.drop_last());
    }
}

impl StcoBox {
    pub open spec fn wf(&self) -> bool {
        &&& self.flags < 0x1000000
        &&& self.entries@.len() <= u32::MAX
        &&& 16 + 4 * self.entries@.len() <= u32::MAX
    }

    pub open spec fn spec_size(&self) -> int {
        HEADER_SIZE + HEADER_EXT_SIZE + 4 + 4 * self.entries@.len()
    }

    pub open spec fn spec_bytes(&self) -> Seq<u8> {
        BoxHeader { name: BoxType::StcoBox, size: self.spec_size() as u64 }.spec_bytes()
            + spec_ext_bytes(self.version, self.flags) + u32_be(self.entries@.len() as u32)
            + spec_stco_entries_bytes(self.entries@)
    }

    pub fn box_size(&self) -> (r: u64)
        requires
            self.wf(),
        ensures
            r == self.spec_size(),
    {
        HEADER_SIZE + HEADER_EXT_SIZE + 4 + 4 * (self.entries.len() as u64)
    }

    pub fn write_box(&self, out: &mut Vec<u8>) -> (r: Result<u64, Error>)
        requires
            self.wf(),
        ensures
            final(out)@ == old(out)@ + self.spec_bytes(),
            r == Ok::<u64, Error>(self.spec_size() as u64),
    {
        proof {
            lemma_stco_entries_bytes_len(self.entries@);
        }
        let size = self.box_size();
        let header = BoxHeader::new(BoxType::StcoBox, size);
        let _ = header.write(out);
        let _ = write_box_header_ext(out, self.version, self.flags);
        put_u32(out, self.entries.len() as u32);
        let ghost mid = out@;
        let mut i: usize = 0;
        while i < self.entries.len()
            invariant
                i <= self.entries@.len(),
                out@ == mid + spec_stco_entries_bytes(self.entries@.take(i as int)),
            decreases self.entries@.len() - i,
        {
            let e = self.entries[i];
            put_u32(out, e);
            proof {
                let nxt = self.entries@.take(i + 1);
                assert(nxt.drop_last() =~= self.entries@.take(i as int));
                assert(nxt.last() == self.entries@[i as int]);
                assert(out@ =~= mid + spec_stco_entries_bytes(nxt));
            }
            i = i + 1;
        }
        proof {
            assert(self.entries@.take(self.entries@.len() as int) =~= self.entries@);
            assert(out@ =~= old(out)@ + self.spec_bytes());
        }
        Ok(size)
    }

    /// Reads the payload of the box; `pos` stands just after the header.
    pub fn read_box(buf: &Vec<u8>, pos: usize, size: u64) -> (r: Result<(StcoBox, usize), Error>)
        requires
            pos >= 8,
            pos - 8 + size <= usize::MAX,
        ensures
            r matches Ok(v) ==> size >= 8 && pos - 8 + size <= buf@.len() && (
            match spec_parse_u32_table(buf@.subrange(pos as int, pos - 8 + size)) {
                Some(p) => v.0.version == p.0 && v.0.flags == p.1 && v.0.entries@ == p.2 && v.1
                    == pos - 8 + size,
                None => false,
            }),
            size >= 8 && pos - 8 + size <= buf@.len() && spec_parse_u32_table(
                buf@.subrange(pos as int, pos - 8 + size),
            ) is Some ==> r is Ok,
    {
        if size < 8 {
            return Err(Error::IoError);
        }
        let end = (pos - 8) + (size as usize);
        if end > buf.len() {
            return Err(Error::IoError);
        }
        if end - pos < 8 {
            return Err(Error::IoError);
        }
        let ghost data = buf@.subrange(pos as int, end as int);
        proof {
            assert(forall|k: int| 0 <= k < data.len() ==> data[k] == buf@[pos + k]);
        }
        let ((version, flags), p0) = match read_box_header_ext(buf, pos) {
            Ok(v) => v,
            Err(e) => { return Err(e); },
        };
        let (count, p1) = match read_u32(buf, p0) {
            Ok(v) => v,
            Err(e) => { return Err(e); },
        };
        proof {
            lemma_div_window((end - p1) as int, 4);
        }
        if (end - p1) / 4 < count as usize {
            return Err(Error::IoError);
        }
        let mut entries: Vec<u32> = Vec::new();
        let mut i: usize = 0;
        while i < count as usize
            invariant
                pos >= 8,
                p1 == pos + 8,
                p1 + 4 * (count as int) <= end <= buf@.len(),
                i <= count as usize,
                data == buf@.subrange(pos as int, end as int),
                entries@.len() == i,
                forall|k: int|
                    0 <= k < i ==> entries@[k] == be32(
                        data[8 + 4 * k],
                        data[9 + 4 * k],
                        data[10 + 4 * k],
                        data[11 + 4 * k],
                    ),
            decreases count as int - i,
        {
            let (entry, _) = match read_u32(buf, p1 + 4 * i) {
                Ok(v) => v,
                Err(e) => { return Err(e); },
            };
            entries.push(entry);
            i = i + 1;
        }
        proof {
            let p = spec_parse_u32_table(data).unwrap();
            assert(entries@ =~= p.2);
        }
        Ok((StcoBox { version, flags, entries }, end))
    }
}


/// Serialization of the `co64` entry list, 8 bytes per entry.
pub open spec fn spec_co64_entries_bytes(s: Seq<u64>) -> Seq<u8>
    decreases s.len(),
{
    if s.len() == 0 {
        Seq::empty()
    } else {
        spec_co64_entries_bytes(s.drop_last()) + u64_be(s.last())
    }
}

pub proof fn lemma_co64_entries_bytes_len(s: Seq<u64>)
    ensures
        spec_co64_entries_bytes(s).len() == 8 * s.len(),
    decreases s.len(),
{
    if s.len() > 0 {
        lemma_co64_entries_bytes_len(s.drop_last());
    }
}

/// What a `co64` payload (the bytes after the header) means: version,
/// flags, and the declared number of 8-byte offsets, which must fit
/// inside the payload; trailing bytes are tolerated.
pub open spec fn spec_parse_co64(data: Seq<u8>) -> Option<(u8, u32, Seq<u64>)> {
    if data.len() < 8 {
        None
    } else {
        let count = be32(data[4], data[5], data[6], data[7]) as int;
        if data.len() - 8 < 8 * count {
            None
        } else {
            Some(
                (
                    data[0],
                    crate::bigend::be24(data[1], data[2], data[3]),
                    Seq::new(
                        count as nat,
                        |k: int|
                            be64(
                                data[8 + 8 * k],
                                data[9 + 8 * k],
                                data[10 + 8 * k],
                                data[11 + 8 * k],
                                data[12 + 8 * k],
                                data[13 + 8 * k],
                                data[14 + 8 * k],
                                data[15 + 8 * k],
                            ),
                    ),
                ),
            )
        }
    }
}

impl Co64Box {
    pub open spec fn wf(&self) -> bool {
        &&& self.flags < 0x1000000
        &&& self.entries@.len() <= u32::MAX
        &&& 16 + 8 * self.entries@.len() <= u32::MAX
    }

    pub open spec fn spec_size(&self) -> int {
        HEADER_SIZE + HEADER_EXT_SIZE + 4 + 8 * self.entries@.len()
    }

    pub open spec fn spec_bytes(&self) -> Seq<u8> {
        BoxHeader { name: BoxType::Co64Box, size: self.spec_size() as u64 }.spec_bytes()
            + spec_ext_bytes(self.version, self.flags) + u32_be(self.entries@.len() as u32)
            + spec_co64_entries_bytes(self.entries@)
    }

    pub fn box_size(&self) -> (r: u64)
        requires
            self.wf(),
        ensures
            r == self.spec_size(),
    {
        HEADER_SIZE + HEADER_EXT_SIZE + 4 + 8 * (self.entries.len() as u64)
    }

    pub fn write_box(&self, out: &mut Vec<u8>) -> (r: Result<u64, Error>)
        requires
            self.wf(),
        ensures
            final(out)@ == old(out)@ + self.spec_bytes(),
            r == Ok::<u64, Error>(self.spec_size() as u64),
    {
        proof {
            lemma_co64_entries_bytes_len(self.entries@);
        }
        let size = self.box_size();
        let header = BoxHeader::new(BoxType::Co64Box, size);
        let _ = header.write(out);
        let _ = write_box_header_ext(out, self.version, self.flags);
        put_u32(out, self.entries.len() as u32);
        let ghost mid = out@;
        let mut i: usize = 0;
        while i < self.entries.len()
            invariant
                i <= self.entries@.len(),
                out@ == mid + spec_co64_entries_bytes(self.entries@.take(i as int)),
            decreases self.entries@.len() - i,
        {
            let e = self.entries[i];
            put_u64(out, e);
            proof {
                let nxt = self.entries@.take(i + 1);
                assert(nxt.drop_last() =~= self.entries@.take(i as int));
                assert(nxt.last() == self.entries@[i as int]);
                assert(out@ =~= mid + spec_co64_entries_bytes(nxt));
            }
            i = i + 1;
        }
        proof {
            assert(self.entries@.take(self.entries@.len() as int) =~= self.entries@);
            assert(out@ =~= old(out)@ + self.spec_bytes());
        }
        Ok(size)
    }

    /// Reads the payload of the box; `pos` stands just after the header.
    pub fn read_box(buf: &Vec<u8>, pos: usize, size: u64) -> (r: Result<(Co64Box, usize), Error>)
        requires
            pos >= 8,
            pos - 8 + size <= usize::MAX,
        ensures
            r matches Ok(v) ==> size >= 8 && pos - 8 + size <= buf@.len() && (
            match spec_parse_co64(buf@.subrange(pos as int, pos - 8 + size)) {
                Some(p) => v.0.version == p.0 && v.0.flags == p.1 && v.0.entries@ == p.2 && v.1
                    == pos - 8 + size,
                None => false,
            }),
            size >= 8 && pos - 8 + size <= buf@.len() && spec_parse_co64(
                buf@.subrange(pos as int, pos - 8 + size),
            ) is Some ==> r is Ok,
    {
        if size < 8 {
            return Err(Error::IoError);
        }
        let end = (pos - 8) + (size as usize);
        if end > buf.len() {
            return Err(Error::IoError);
        }
        if end - pos < 8 {
            return Err(Error::IoError);
        }
        let ghost data = buf@.subrange(pos as int, end as int);
        proof {
            assert(forall|k: int| 0 <= k < data.len() ==> data[k] == buf@[pos + k]);
        }
        let ((version, flags), p0) = match read_box_header_ext(buf, pos) {
            Ok(v) => v,
            Err(e) => { return Err(e); },
        };
        let (count, p1) = match read_u32(buf, p0) {
            Ok(v) => v,
            Err(e) => { return Err(e); },
        };
        proof {
            lemma_div_window((end - p1) as int, 8);
        }
        if (end - p1) / 8 < count as usize {
            return Err(Error::IoError);
        }
        let mut entries: Vec<u64> = Vec::new();
        let mut i: usize = 0;
        while i < count as usize
            invariant
                pos >= 8,
                p1 == pos + 8,
                p1 + 8 * (count as int) <= end <= buf@.len(),
                i <= count as usize,
                data == buf@.subrange(pos as int, end as int),
                entries@.len() == i,
                forall|k: int|
                    0 <= k < i ==> entries@[k] == be64(
                        data[8 + 8 * k],
                        data[9 + 8 * k],
                        data[10 + 8 * k],
                        data[11 + 8 * k],
                        data[12 + 8 * k],
                        data[13 + 8 * k],
                        data[14 + 8 * k],
                        data[15 + 8 * k],
                    ),
            decreases count as int - i,
        {
            let (entry, _) = match read_u64(buf, p1 + 8 * i) {
                Ok(v) => v,
                Err(e) => { return Err(e); },
            };
            entries.push(entry);
            i = i + 1;
        }
        proof {
            let p = spec_parse_co64(data).unwrap();
            assert(entries@ =~= p.2);
        }
        Ok((Co64Box { version, flags, entries }, end))
    }
}


/// Serialization of the `stsc` entry list, 12 bytes per entry.
pub open spec fn spec_stsc_entries_bytes(s: Seq<StscEntry>) -> Seq<u8>
    decreases s.len(),
{
    if s.len() == 0 {
        Seq::empty()
    } else {
        spec_stsc_entries_bytes(s.drop_last()) + u32_be(s.last().first_chunk) + u32_be(s.last().samples_per_chunk) + u32_be(s.last().sample_description_index)
    }
}

pub proof fn lemma_stsc_entries_bytes_len(s: Seq<StscEntry>)
    ensures
        spec_stsc_entries_bytes(s).len() == 12 * s.len(),
    decreases s.len(),
{
    if s.len() > 0 {
        lemma_stsc_entries_bytes_len(s.drop_last());
    }
}

/// What an `stsc` payload (the bytes after the header) means: version,
/// flags, and the declared number of 12-byte runs, which must fit inside
/// the payload; the derived `first_sample` fields are left at zero, and
/// trailing bytes are tolerated.
pub open spec fn spec_parse_stsc(data: Seq<u8>) -> Option<(u8, u32, Seq<StscEntry>)> {
    if data.len() < 8 {
        None
    } else {
        let count = be32(data[4], data[5], data[6], data[7]) as int;
        if data.len() - 8 < 12 * count {
            None
        } else {
            Some(
                (
                    data[0],
                    crate::bigend::be24(data[1], data[2], data[3]),
                    Seq::new(
                        count as nat,
                        |k: int|
                            StscEntry {
                                first_chunk: be32(
                                    data[8 + 12 * k],
                                    data[9 + 12 * k],
                                    data[10 + 12 * k],
                                    data[11 + 12 * k],
                                ),
                                samples_per_chunk: be32(
                                    data[12 + 12 * k],
                                    data[13 + 12 * k],
                                    data[14 + 12 * k],
                                    data[15 + 12 * k],
                                ),
                                sample_description_index: be32(
                                    data[16 + 12 * k],
                                    data[17 + 12 * k],
                                    data[18 + 12 * k],
                                    data[19 + 12 * k],
                                ),
                                first_sample: 0,
                            },
                    ),
                ),
            )
        }
    }
}

impl StscBox {
    pub open spec fn wf(&self) -> bool {
        &&& self.flags < 0x1000000
        &&& self.entries@.len() <= u32::MAX
        &&& 16 + 12 * self.entries@.len() <= u32::MAX
    }

    pub open spec fn spec_size(&self) -> int {
        HEADER_SIZE + HEADER_EXT_SIZE + 4 + 12 * self.entries@.len()
    }

    pub open spec fn spec_bytes(&self) -> Seq<u8> {
        BoxHeader { name: BoxType::StscBox, size: self.spec_size() as u64 }.spec_bytes()
            + spec_ext_bytes(self.version, self.flags) + u32_be(self.entries@.len() as u32)
            + spec_stsc_entries_bytes(self.entries@)
    }

    pub fn box_size(&self) -> (r: u64)
        requires
            self.wf(),
        ensures
            r == self.spec_size(),
    {
        HEADER_SIZE + HEADER_EXT_SIZE + 4 + 12 * (self.entries.len() as u64)
    }

    pub fn write_box(&self, out: &mut Vec<u8>) -> (r: Result<u64, Error>)
        requires
            self.wf(),
        ensures
            final(out)@ == old(out)@ + self.spec_bytes(),
            r == Ok::<u64, Error>(self.spec_size() as u64),
    {
        proof {
            lemma_stsc_entries_bytes_len(self.entries@);
        }
        let size = self.box_size();
        let header = BoxHeader::new(BoxType::StscBox, size);
        let _ = header.write(out);
        let _ = write_box_header_ext(out, self.version, self.flags);
        put_u32(out, self.entries.len() as u32);
        let ghost mid = out@;
        let mut i: usize = 0;
        while i < self.entries.len()
            invariant
                i <= self.entries@.len(),
                out@ == mid + spec_stsc_entries_bytes(self.entries@.take(i as int)),
            decreases self.entries@.len() - i,
        {
            let e = self.entries[i];
            put_u32(out, e.first_chunk);
            put_u32(out, e.samples_per_chunk);
            put_u32(out, e.sample_description_index);
            proof {
                let nxt = self.entries@.take(i + 1);
                assert(nxt.drop_last() =~= self.entries@.take(i as int));
                assert(nxt.last() == self.entries@[i as int]);
                assert(out@ =~= mid + spec_stsc_entries_bytes(nxt));
            }
            i = i + 1;
        }
        proof {
            assert(self.entries@.take(self.entries@.len() as int) =~= self.entries@);
            assert(out@ =~= old(out)@ + self.spec_bytes());
        }
        Ok(size)
    }

    /// Reads the payload of the box; `pos` stands just after the header.
    pub fn read_box(buf: &Vec<u8>, pos: usize, size: u64) -> (r: Result<(StscBox, usize), Error>)
        requires
            pos >= 8,
            pos - 8 + size <= usize::MAX,
        ensures
            r matches Ok(v) ==> size >= 8 && pos - 8 + size <= buf@.len() && (
            match spec_parse_stsc(buf@.subrange(pos as int, pos - 8 + size)) {
                Some(p) => v.0.version == p.0 && v.0.flags == p.1 && v.0.entries@ == p.2 && v.1
                    == pos - 8 + size,
                None => false,
            }),
            size >= 8 && pos - 8 + size <= buf@.len() && spec_parse_stsc(
                buf@.subrange(pos as int, pos - 8 + size),
            ) is Some ==> r is Ok,
    {
        if size < 8 {
            return Err(Error::IoError);
        }
        let end = (pos - 8) + (size as usize);
        if end > buf.len() {
            return Err(Error::IoError);
        }
        if end - pos < 8 {
            return Err(Error::IoError);
        }
        let ghost data = buf@.subrange(pos as int, end as int);
        proof {
            assert(forall|k: int| 0 <= k < data.len() ==> data[k] == buf@[pos + k]);
        }
        let ((version, flags), p0) = match read_box_header_ext(buf, pos) {
            Ok(v) => v,
            Err(e) => { return Err(e); },
        };
        let (count, p1) = match read_u32(buf, p0) {
            Ok(v) => v,
            Err(e) => { return Err(e); },
        };
        proof {
            lemma_div_window((end - p1) as int, 12);
        }
        if (end - p1) / 12 < count as usize {
            return Err(Error::IoError);
        }
        let mut entries: Vec<StscEntry> = Vec::new();
        let mut i: usize = 0;
        while i < count as usize
            invariant
                pos >= 8,
                p1 == pos + 8,
                p1 + 12 * (count as int) <= end <= buf@.len(),
                i <= count as usize,
                data == buf@.subrange(pos as int, end as int),
                entries@.len() == i,
                forall|k: int|
                    0 <= k < i ==> entries@[k] == (StscEntry {
                        first_chunk: be32(
                            data[8 + 12 * k],
                            data[9 + 12 * k],
                            data[10 + 12 * k],
                            data[11 + 12 * k],
                        ),
                        samples_per_chunk: be32(
                            data[12 + 12 * k],
                            data[13 + 12 * k],
                            data[14 + 12 * k],
                            data[15 + 12 * k],
                        ),
                        sample_description_index: be32(
                            data[16 + 12 * k],
                            data[17 + 12 * k],
                            data[18 + 12 * k],
                            data[19 + 12 * k],
                        ),
                        first_sample: 0u32,
                    }),
            decreases count as int - i,
        {
            let (first_chunk, q) = match read_u32(buf, p1 + 12 * i) {
                Ok(v) => v,
                Err(e) => { return Err(e); },
            };
            let (samples_per_chunk, q2) = match read_u32(buf, q) {
                Ok(v) => v,
                Err(e) => { return Err(e); },
            };
            let (sample_description_index, _) = match read_u32(buf, q2) {
                Ok(v) => v,
                Err(e) => { return Err(e); },
            };
            entries.push(
                StscEntry {
                    first_chunk,
                    samples_per_chunk,
                    sample_description_index,
                    first_sample: 0,
                },
            );
            i = i + 1;
        }
        proof {
            let p = spec_parse_stsc(data).unwrap();
            assert(entries@ =~= p.2);
        }
        Ok((StscBox { version, flags, entries }, end))
    }
}


/// Serialization of the per-sample size list, 4 bytes per entry.
pub open spec fn spec_stsz_sizes_bytes(s: Seq<u32>) -> Seq<u8>
    decreases s.len(),
{
    if s.len() == 0 {
        Seq::empty()
    } else {
        spec_stsz_sizes_bytes(s.drop_last()) + u32_be(s.last())
    }
}

pub proof fn lemma_stsz_sizes_bytes_len(s: Seq<u32>)
    ensures
        spec_stsz_sizes_bytes(s).len() == 4 * s.len(),
    decreases s.len(),
{
    if s.len() > 0 {
        lemma_stsz_sizes_bytes_len(s.drop_last());
    }
}

/// What an `stsz` payload (the bytes after the header) means: version,
/// flags, the fixed size, the sample count, and the per-sample list,
/// present exactly when the fixed size is zero; trailing bytes are
/// tolerated.
pub open spec fn spec_parse_stsz(data: Seq<u8>) -> Option<(u8, u32, u32, u32, Seq<u32>)> {
    if data.len() < 12 {
        None
    } else {
        let sample_size = be32(data[4], data[5], data[6], data[7]);
        let sample_count = be32(data[8], data[9], data[10], data[11]);
        if sample_size == 0 {
            if data.len() - 12 < 4 * sample_count {
                None
            } else {
                Some(
                    (
                        data[0],
                        crate::bigend::be24(data[1], data[2], data[3]),
                        sample_size,
                        sample_count,
                        Seq::new(
                            sample_count as nat,
                            |k: int|
                                be32(
                                    data[12 + 4 * k],
                                    data[13 + 4 * k],
                                    data[14 + 4 * k],
                                    data[15 + 4 * k],
                                ),
                        ),
                    ),
                )
            }
        } else {
            Some(
                (
                    data[0],
                    crate::bigend::be24(data[1], data[2], data[3]),
                    sample_size,
                    sample_count,
                    Seq::empty(),
                ),
            )
        }
    }
}

impl StszBox {
    pub open spec fn wf(&self) -> bool {
        &&& self.flags < 0x1000000
        &&& (self.sample_size == 0 ==> self.sample_sizes@.len() == self.sample_count)
        &&& (self.sample_size > 0 ==> self.sample_sizes@.len() == 0)
        &&& 20 + 4 * self.sample_sizes@.len() <= u32::MAX
    }

    pub open spec fn spec_size(&self) -> int {
        HEADER_SIZE + HEADER_EXT_SIZE + 8 + 4 * self.sample_sizes@.len()
    }

    pub open spec fn spec_bytes(&self) -> Seq<u8> {
        BoxHeader { name: BoxType::StszBox, size: self.spec_size() as u64 }.spec_bytes()
            + spec_ext_bytes(self.version, self.flags) + u32_be(self.sample_size) + u32_be(
            self.sample_count,
        ) + spec_stsz_sizes_bytes(self.sample_sizes@)
    }

    pub fn box_size(&self) -> (r: u64)
        requires
            self.wf(),
        ensures
            r == self.spec_size(),
    {
        HEADER_SIZE + HEADER_EXT_SIZE + 8 + 4 * (self.sample_sizes.len() as u64)
    }

    pub fn write_box(&self, out: &mut Vec<u8>) -> (r: Result<u64, Error>)
        requires
            self.wf(),
        ensures
            final(out)@ == old(out)@ + self.spec_bytes(),
            r == Ok::<u64, Error>(self.spec_size() as u64),
    {
        proof {
            lemma_stsz_sizes_bytes_len(self.sample_sizes@);
        }
        let size = self.box_size();
        let header = BoxHeader::new(BoxType::StszBox, size);
        let _ = header.write(out);
        let _ = write_box_header_ext(out, self.version, self.flags);
        put_u32(out, self.sample_size);
        put_u32(out, self.sample_count);
        let ghost mid = out@;
        let mut i: usize = 0;
        while i < self.sample_sizes.len()
            invariant
                i <= self.sample_sizes@.len(),
                out@ == mid + spec_stsz_sizes_bytes(self.sample_sizes@.take(i as int)),
            decreases self.sample_sizes@.len() - i,
        {
            put_u32(out, self.sample_sizes[i]);
            proof {
                let nxt = self.sample_sizes@.take(i + 1);
                assert(nxt.drop_last() =~= self.sample_sizes@.take(i as int));
                assert(nxt.last() == self.sample_sizes@[i as int]);
                assert(out@ =~= mid + spec_stsz_sizes_bytes(nxt));
            }
            i = i + 1;
        }
        proof {
            assert(self.sample_sizes@.take(self.sample_sizes@.len() as int)
                =~= self.sample_sizes@);
            assert(out@ =~= old(out)@ + self.spec_bytes());
        }
        Ok(size)
    }

    /// Reads the payload of an `stsz` box; `pos` stands just after the
    /// header.
    pub fn read_box(buf: &Vec<u8>, pos: usize, size: u64) -> (r: Result<(StszBox, usize), Error>)
        requires
            pos >= 8,
            pos - 8 + size <= usize::MAX,
        ensures
            r matches Ok(v) ==> size >= 8 && pos - 8 + size <= buf@.len() && (
            match spec_parse_stsz(buf@.subrange(pos as int, pos - 8 + size)) {
                Some(p) => v.0.version == p.0 && v.0.flags == p.1 && v.0.sample_size == p.2
                    && v.0.sample_count == p.3 && v.0.sample_sizes@ == p.4 && v.1 == pos - 8
                    + size,
                None => false,
            }),
            size >= 8 && pos - 8 + size <= buf@.len() && spec_parse_stsz(
                buf@.subrange(pos as int, pos - 8 + size),
            ) is Some ==> r is Ok,
    {
        if size < 8 {
            return Err(Error::IoError);
        }
        let end = (pos - 8) + (size as usize);
        if end > buf.len() {
            return Err(Error::IoError);
        }
        if end - pos < 12 {
            return Err(Error::IoError);
        }
        let ghost data = buf@.subrange(pos as int, end as int);
        proof {
            assert(forall|k: int| 0 <= k < data.len() ==> data[k] == buf@[pos + k]);
        }
        let ((version, flags), p0) = match read_box_header_ext(buf, pos) {
            Ok(v) => v,
            Err(e) => { return Err(e); },
        };
        let (sample_size, p1) = match read_u32(buf, p0) {
            Ok(v) => v,
            Err(e) => { return Err(e); },
        };
        let (sample_count, p2) = match read_u32(buf, p1) {
            Ok(v) => v,
            Err(e) => { return Err(e); },
        };
        let mut sample_sizes: Vec<u32> = Vec::new();
        if sample_size == 0 {
            proof {
                lemma_div_window((end - p2) as int, 4);
            }
            if (end - p2) / 4 < sample_count as usize {
                return Err(Error::IoError);
            }
            let mut i: usize = 0;
            while i < sample_count as usize
                invariant
                    pos >= 8,
                    p2 == pos + 12,
                    p2 + 4 * (sample_count as int) <= end <= buf@.len(),
                    i <= sample_count as usize,
                    data == buf@.subrange(pos as int, end as int),
                    sample_sizes@.len() == i,
                    forall|k: int|
                        0 <= k < i ==> sample_sizes@[k] == be32(
                            data[12 + 4 * k],
                            data[13 + 4 * k],
                            data[14 + 4 * k],
                            data[15 + 4 * k],
                        ),
                decreases sample_count as int - i,
            {
                let (entry, _) = match read_u32(buf, p2 + 4 * i) {
                    Ok(v) => v,
                    Err(e) => { return Err(e); },
                };
                sample_sizes.push(entry);
                i = i + 1;
            }
        }
        proof {
            let p = spec_parse_stsz(data).unwrap();
            assert(sample_sizes@ =~= p.4);
        }
        Ok((StszBox { version, flags, sample_size, sample_count, sample_sizes }, end))
    }
}


impl StblBox {
    /// Every present table is well-formed and the total size fits.
    pub open spec fn wf(&self) -> bool {
        &&& self.stsd.wf()
        &&& self.stts.wf()
        &&& self.ctts matches Some(t) ==> t.wf()
        &&& self.stss matches Some(t) ==> t.wf()
        &&& self.stsc.wf()
        &&& self.stsz.wf()
        &&& self.stco matches Some(t) ==> t.wf()
        &&& self.co64 matches Some(t) ==> t.wf()
        &&& self.spec_size() <= u32::MAX
    }

    #[verifier::opaque]
    pub open spec fn spec_size(&self) -> int {
        HEADER_SIZE + self.stsd.spec_size() + self.stts.spec_size() + (match self.ctts {
            Some(t) => t.spec_size(),
            None => 0,
        }) + (match self.stss {
            Some(t) => t.spec_size(),
            None => 0,
        }) + self.stsc.spec_size() + self.stsz.spec_size() + (match self.stco {
            Some(t) => t.spec_size(),
            None => 0,
        }) + (match self.co64 {
            Some(t) => t.spec_size(),
            None => 0,
        })
    }

    /// A well-formed sample table serializes to exactly its declared
    /// size.
    #[verifier::rlimit(100)]
    pub proof fn lemma_bytes_len(&self)
        requires
            self.wf(),
        ensures
            self.spec_bytes().len() == self.spec_size(),
            self.spec_size() >= 8,
    {
        reveal(StblBox::spec_size);
        reveal(StblBox::spec_bytes);
        self.stsd.lemma_entry_bytes_len();
        lemma_stts_entries_bytes_len(self.stts.entries@);
        match self.ctts {
            Some(t) => lemma_ctts_entries_bytes_len(t.entries@),
            None => (),
        }
        match self.stss {
            Some(t) => lemma_stss_entries_bytes_len(t.entries@),
            None => (),
        }
        lemma_stsc_entries_bytes_len(self.stsc.entries@);
        lemma_stsz_sizes_bytes_len(self.stsz.sample_sizes@);
        match self.stco {
            Some(t) => lemma_stco_entries_bytes_len(t.entries@),
            None => (),
        }
        match self.co64 {
            Some(t) => lemma_co64_entries_bytes_len(t.entries@),
            None => (),
        }
    }

    #[verifier::rlimit(100)]
    pub fn get_size(&self) -> (r: u64)
        requires
            self.wf(),
        ensures
            r == self.spec_size(),
    {
        proof {
            reveal(StblBox::spec_size);
            self.stsd.lemma_entry_bytes_len();
        }
        let mut size: u64 = HEADER_SIZE + self.stsd.get_size() + self.stts.box_size();
        if let Some(ref t) = self.ctts {
            size += t.box_size();
        }
        if let Some(ref t) = self.stss {
            size += t.box_size();
        }
        size += self.stsc.box_size();
        size += self.stsz.box_size();
        if let Some(ref t) = self.stco {
            size += t.box_size();
        }
        if let Some(ref t) = self.co64 {
            size += t.box_size();
        }
        size
    }

    /// The full wire form: the description box, then the tables in the
    /// canonical order.
    #[verifier::opaque]
    pub open spec fn spec_bytes(&self) -> Seq<u8> {
        BoxHeader { name: BoxType::StblBox, size: self.spec_size() as u64 }.spec_bytes()
            + self.stsd.spec_bytes() + self.stts.spec_bytes() + (match self.ctts {
            Some(t) => t.spec_bytes(),
            None => Seq::empty(),
        }) + (match self.stss {
            Some(t) => t.spec_bytes(),
            None => Seq::empty(),
        }) + self.stsc.spec_bytes() + self.stsz.spec_bytes() + (match self.stco {
            Some(t) => t.spec_bytes(),
            None => Seq::empty(),
        }) + (match self.co64 {
            Some(t) => t.spec_bytes(),
            None => Seq::empty(),
        })
    }

    #[verifier::rlimit(100)]
    pub fn write_box(&self, out: &mut Vec<u8>) -> (r: Result<u64, Error>)
        requires
            self.wf(),
        ensures
            final(out)@ == old(out)@ + self.spec_bytes(),
            r == Ok::<u64, Error>(self.spec_size() as u64),
    {
        proof {
            reveal(StblBox::spec_size);
            reveal(StblBox::spec_bytes);
            self.stsd.lemma_entry_bytes_len();
        }
        let size = self.get_size();
        let header = BoxHeader::new(BoxType::StblBox, size);
        let _ = header.write(out);
        let _ = self.stsd.write_box(out);
        let _ = self.stts.write_box(out);
        if let Some(ref t) = self.ctts {
            let _ = t.write_box(out);
        }
        if let Some(ref t) = self.stss {
            let _ = t.write_box(out);
        }
        let _ = self.stsc.write_box(out);
        let _ = self.stsz.write_box(out);
        if let Some(ref t) = self.stco {
            let _ = t.write_box(out);
        }
        if let Some(ref t) = self.co64 {
            let _ = t.write_box(out);
        }
        assert(out@ =~= old(out)@ + self.spec_bytes());
        Ok(size)
    }
}


impl SttsBox {
    /// Decides well-formedness: flags in range and a table short enough
    /// for its 32-bit size field.
    pub fn check_wf(&self) -> (r: bool)
        ensures
            r <==> self.wf(),
    {
        self.flags < 0x1000000 && self.entries.len() as u64 <= ((u32::MAX - 16) / 8) as u64
    }
}


impl CttsBox {
    /// Decides well-formedness: flags in range and a table short enough
    /// for its 32-bit size field.
    pub fn check_wf(&self) -> (r: bool)
        ensures
            r <==> self.wf(),
    {
        self.flags < 0x1000000 && self.entries.len() as u64 <= ((u32::MAX - 16) / 8) as u64
    }
}


impl StssBox {
    /// Decides well-formedness: flags in range and a table short enough
    /// for its 32-bit size field.
    pub fn check_wf(&self) -> (r: bool)
        ensures
            r <==> self.wf(),
    {
        self.flags < 0x1000000 && self.entries.len() as u64 <= ((u32::MAX - 16) / 4) as u64
    }
}


impl StscBox {
    /// Decides well-formedness: flags in range and a table short enough
    /// for its 32-bit size field.
    pub fn check_wf(&self) -> (r: bool)
        ensures
            r <==> self.wf(),
    {
        self.flags < 0x1000000 && self.entries.len() as u64 <= ((u32::MAX - 16) / 12) as u64
    }
}


impl StcoBox {
    /// Decides well-formedness: flags in range and a table short enough
    /// for its 32-bit size field.
    pub fn check_wf(&self) -> (r: bool)
        ensures
            r <==> self.wf(),
    {
        self.flags < 0x1000000 && self.entries.len() as u64 <= ((u32::MAX - 16) / 4) as u64
    }
}


impl Co64Box {
    /// Decides well-formedness: flags in range and a table short enough
    /// for its 32-bit size field.
    pub fn check_wf(&self) -> (r: bool)
        ensures
            r <==> self.wf(),
    {
        self.flags < 0x1000000 && self.entries.len() as u64 <= ((u32::MAX - 16) / 8) as u64
    }
}


impl StszBox {
    /// Decides well-formedness: flags in range, the size list matching
    /// the mode, and a table short enough for its 32-bit size field.
    pub fn check_wf(&self) -> (r: bool)
        ensures
            r <==> self.wf(),
    {
        &&& self.flags < 0x1000000
        &&& (if self.sample_size == 0 {
            self.sample_sizes.len() as u64 == self.sample_count as u64
        } else {
            self.sample_sizes.len() == 0
        })
        &&& self.sample_sizes.len() as u64 <= ((u32::MAX - 20) / 4) as u64
    }
}

impl StblBox {
    /// Decides well-formedness: every table well-formed and the whole
    /// box short enough for its 32-bit size field.
    pub fn check_wf(&self) -> (r: bool)
        ensures
            r <==> self.wf(),
    {
        if !self.stsd.check_wf() || !self.stts.check_wf() || !self.stsc.check_wf()
            || !self.stsz.check_wf() {
            return false;
        }
        proof {
            self.stsd.lemma_entry_bytes_len();
        }
        let mut size: u64 = HEADER_SIZE + self.stsd.get_size() + self.stts.box_size();
        if let Some(ref t) = self.ctts {
            if !t.check_wf() {
                return false;
            }
            size += t.box_size();
        }
        if let Some(ref t) = self.stss {
            if !t.check_wf() {
                return false;
            }
            size += t.box_size();
        }
        size += self.stsc.box_size();
        size += self.stsz.box_size();
        if let Some(ref t) = self.stco {
            if !t.check_wf() {
                return false;
            }
            size += t.box_size();
        }
        if let Some(ref t) = self.co64 {
            if !t.check_wf() {
                return false;
            }
            size += t.box_size();
        }
        proof {
            reveal(StblBox::spec_size);
        }
        size <= u32::MAX as u64
    }
}

} // verus!
