//! Waveform peaks for the music lane: one max-amplitude value per fixed time
//! bucket of the decoded mono audio, plus the media duration the decode
//! measured.
//!
//! The decoder hands over little-endian `f32` samples. A peak is kept as the
//! bit pattern of its `f32` value: for the values a peak can take (finite,
//! not negative, at most 1.0) the order of the bit patterns is the order of
//! the numbers, so the running maximum is taken on integers and is exactly
//! the float maximum.
use vstd::prelude::*;

verus! {

/// Peak buckets per second of audio. About 50 gives sub-pixel resolution at
/// any plausible timeline width while keeping a five-minute track small.
pub const PEAKS_PER_SEC: u32 = 50;

/// Rate the audio is decoded at for peaks, in mono samples per second.
pub const PEAKS_SAMPLE_RATE: u32 = 8_000;

/// Bit pattern of `1.0f32`.
pub const ONE_BITS: u32 = 0x3f80_0000;

/// Sign bit of an `f32` bit pattern.
pub const SIGN_BIT: u32 = 0x8000_0000;

/// Decoded waveform summary: one peak per bucket and the exact media
/// duration the decode measured.
pub struct AudioPeaks {
    pub duration_ns: u64,
    pub peaks_per_sec: u32,
    /// Peak amplitude per bucket, as the bit pattern of an `f32` in 0..=1.
    pub peaks: Vec<u32>,
}

/// The word that four little-endian bytes spell.
pub open spec fn le_word(b0: u8, b1: u8, b2: u8, b3: u8) -> u32 {
    (b0 + 256 * b1 + 65536 * b2 + 16777216 * b3) as u32
}

/// `|x|.min(1.0)` on the bit pattern of `x`: clearing the sign gives `|x|`,
/// and every pattern at or above that of 1.0 (infinity and NaN among them)
/// stands for a value that `min(1.0)` turns into 1.0.
pub open spec fn magnitude(bits: u32) -> u32 {
    let abs = if bits >= SIGN_BIT {
        (bits - SIGN_BIT) as u32
    } else {
        bits
    };
    if abs < ONE_BITS {
        abs
    } else {
        ONE_BITS
    }
}

pub open spec fn max_word(a: u32, b: u32) -> u32 {
    if a >= b {
        a
    } else {
        b
    }
}

/// The largest magnitude in a run of samples, zero for none.
pub open spec fn run_peak(samples: Seq<u32>) -> u32
    decreases samples.len(),
{
    if samples.len() == 0 {
        0
    } else {
        max_word(run_peak(samples.drop_last()), magnitude(samples.last()))
    }
}

/// Samples per bucket: the decode rate over the peak rate, at least one.
pub open spec fn bucket_len_of(peaks_per_sec: nat) -> nat {
    let per = if peaks_per_sec >= 1 {
        peaks_per_sec
    } else {
        1
    };
    if (PEAKS_SAMPLE_RATE as nat) / per >= 1 {
        (PEAKS_SAMPLE_RATE as nat) / per
    } else {
        1
    }
}

/// Buckets needed for `n` samples: every full bucket and a trailing partial
/// one.
pub open spec fn bucket_count(n: nat, bucket: nat) -> nat {
    ((n + bucket - 1) / (bucket as int)) as nat
}

/// The samples of bucket `i`.
pub open spec fn bucket_of(samples: Seq<u32>, bucket: nat, i: int) -> Seq<u32> {
    let start = i * bucket;
    let end = if start + bucket <= samples.len() {
        start + bucket
    } else {
        samples.len() as int
    };
    samples.subrange(start, end)
}

/// The peaks of a decoded stream.
pub open spec fn peaks_of(samples: Seq<u32>, bucket: nat) -> Seq<u32> {
    Seq::new(bucket_count(samples.len(), bucket), |i: int| run_peak(bucket_of(samples, bucket, i)))
}

proof fn lemma_bucket_inside(i: int, full: int, b: int)
    by (nonlinear_arith)
    requires
        0 <= i < full,
        1 <= b,
    ensures
        0 <= i * b,
        i * b + b <= full * b,
{
}

proof fn lemma_next_multiple(full: int, b: int)
    by (nonlinear_arith)
    ensures
        (full + 1) * b == full * b + b,
{
}

proof fn lemma_run_peak_bounded(samples: Seq<u32>)
    ensures
        run_peak(samples) <= ONE_BITS,
    decreases samples.len(),
{
    if samples.len() > 0 {
        lemma_run_peak_bounded(samples.drop_last());
    }
}

proof fn lemma_run_peak_covers(samples: Seq<u32>, k: int)
    requires
        0 <= k < samples.len(),
    ensures
        magnitude(samples[k]) <= run_peak(samples),
    decreases samples.len(),
{
    if k < samples.len() - 1 {
        lemma_run_peak_covers(samples.drop_last(), k);
    }
}

/// `|x|.min(1.0)` of one sample, on its bit pattern.
pub fn sample_magnitude(bits: u32) -> (m: u32)
    ensures
        m == magnitude(bits),
{
    let abs = if bits >= SIGN_BIT {
        bits - SIGN_BIT
    } else {
        bits
    };
    if abs < ONE_BITS {
        abs
    } else {
        ONE_BITS
    }
}

/// Running peak detector over the decoded samples.
pub struct PeakMeter {
    peaks_per_sec: u32,
    bucket_len: u64,
    samples: u64,
    fill: u64,
    bucket_peak: u32,
    peaks: Vec<u32>,
    seen: Ghost<Seq<u32>>,
}

impl PeakMeter {
    /// Every sample pushed so far, in order.
    pub closed spec fn samples_seen(&self) -> Seq<u32> {
        self.seen@
    }

    pub closed spec fn rate(&self) -> nat {
        self.peaks_per_sec as nat
    }

    pub closed spec fn wf(&self) -> bool {
        let b = self.bucket_len as int;
        &&& self.bucket_len as nat == bucket_len_of(self.peaks_per_sec as nat)
        &&& self.samples as nat == self.seen@.len()
        &&& self.fill < self.bucket_len
        &&& self.samples as int == self.peaks@.len() * b + self.fill
        &&& forall|i: int|
            0 <= i < self.peaks@.len() ==> #[trigger] self.peaks@[i] == run_peak(
                self.seen@.subrange(i * b, i * b + b),
            )
        &&& self.bucket_peak == run_peak(
            self.seen@.subrange(self.peaks@.len() * b, self.samples as int),
        )
    }

    /// A meter for `peaks_per_sec` buckets a second, with nothing decoded.
    pub fn new(peaks_per_sec: u32) -> (r: Self)
        ensures
            r.wf(),
            r.samples_seen() == Seq::<u32>::empty(),
            r.rate() == peaks_per_sec,
    {
        let per = if peaks_per_sec >= 1 {
            peaks_per_sec
        } else {
            1
        };
        let len = PEAKS_SAMPLE_RATE / per;
        let bucket_len: u64 = if len >= 1 {
            len as u64
        } else {
            1
        };
        let r = PeakMeter {
            peaks_per_sec,
            bucket_len,
            samples: 0,
            fill: 0,
            bucket_peak: 0,
            peaks: Vec::new(),
            seen: Ghost(Seq::empty()),
        };
        assert(r.seen@.subrange(0, 0) =~= Seq::<u32>::empty());
        r
    }

    /// Samples decoded so far.
    pub fn sample_count(&self) -> (r: u64)
        requires
            self.wf(),
        ensures
            r == self.samples_seen().len(),
    {
        self.samples
    }

    /// Take in one sample, given as its `f32` bit pattern.
    #[verifier::spinoff_prover]
    pub fn push(&mut self, bits: u32)
        requires
            old(self).wf(),
            old(self).samples_seen().len() < u64::MAX,
        ensures
            final(self).wf(),
            final(self).samples_seen() == old(self).samples_seen().push(bits),
            final(self).rate() == old(self).rate(),
    {
        let ghost old_seen = self.seen@;
        let ghost full = self.peaks@.len() as int;
        let ghost b = self.bucket_len as int;
        let m = sample_magnitude(bits);
        if m > self.bucket_peak {
            self.bucket_peak = m;
        }
        self.samples = self.samples + 1;
        self.fill = self.fill + 1;
        self.seen = Ghost(self.seen@.push(bits));
        proof {
            let seen = self.seen@;
            let start = full * b;
            assert(seen.subrange(start, seen.len() as int).drop_last() =~= old_seen.subrange(
                start,
                old_seen.len() as int,
            ));
            assert(seen.subrange(start, seen.len() as int).last() == bits);
            assert forall|i: int| 0 <= i < full implies #[trigger] self.peaks@[i] == run_peak(
                seen.subrange(i * b, i * b + b),
            ) by {
                lemma_bucket_inside(i, full, b);
                assert(seen.subrange(i * b, i * b + b) =~= old_seen.subrange(i * b, i * b + b));
            }
        }
        if self.fill == self.bucket_len {
            let ghost tail = self.seen@.subrange(full * b, self.samples as int);
            self.peaks.push(self.bucket_peak);
            self.bucket_peak = 0;
            self.fill = 0;
            proof {
                let seen = self.seen@;
                lemma_next_multiple(full, b);
                assert(seen.subrange(full * b, full * b + b) =~= tail);
                assert(seen.subrange((full + 1) * b, self.samples as int) =~= Seq::<u32>::empty());
                assert forall|i: int| 0 <= i < full + 1 implies #[trigger] self.peaks@[i]
                    == run_peak(seen.subrange(i * b, i * b + b)) by {
                    if i < full {
                        assert(self.peaks@[i] == old(self).peaks@[i]);
                    }
                }
            }
        }
    }

    /// Take in one sample as the four little-endian bytes of its `f32`.
    pub fn push_le(&mut self, raw: [u8; 4])
        requires
            old(self).wf(),
            old(self).samples_seen().len() < u64::MAX,
        ensures
            final(self).wf(),
            final(self).samples_seen() == old(self).samples_seen().push(
                le_word(raw[0], raw[1], raw[2], raw[3]),
            ),
            final(self).rate() == old(self).rate(),
    {
        let bits: u32 = (raw[0] as u32) + 256 * (raw[1] as u32) + 65536 * (raw[2] as u32)
            + 16777216 * (raw[3] as u32);
        self.push(bits);
    }

    /// The decode's result: the peaks of every sample, a trailing partial
    /// bucket included, and the duration the samples cover. A decode that
    /// failed, or produced no sample at all, has none.
    #[verifier::spinoff_prover]
    pub fn finish(self, decoded_ok: bool) -> (r: Option<AudioPeaks>)
        requires
            self.wf(),
            self.samples_seen().len() * 1_000_000_000 <= u64::MAX,
        ensures
            r is Some <==> decoded_ok && self.samples_seen().len() > 0,
            r matches Some(p) ==> {
                &&& p.peaks@ == peaks_of(
                    self.samples_seen(),
                    bucket_len_of(self.rate()),
                )
                &&& p.peaks_per_sec == self.rate()
                &&& p.duration_ns == self.samples_seen().len() * 1_000_000_000 / (
                PEAKS_SAMPLE_RATE as nat)
            },
    {
        if !decoded_ok || self.samples == 0 {
            return None;
        }
        let PeakMeter { peaks_per_sec, bucket_len, samples, fill, bucket_peak, peaks, seen } = self;
        let ghost full = peaks@.len() as int;
        let ghost b = bucket_len as int;
        let ghost n = samples as int;
        let mut out = peaks;
        if fill > 0 {
            out.push(bucket_peak);
        }
        proof {
            let s = seen@;
            lemma_next_multiple(full, b);
            if fill > 0 {
                vstd::arithmetic::div_mod::lemma_fundamental_div_mod_converse(
                    n + b - 1,
                    b,
                    full + 1,
                    fill - 1,
                );
            } else {
                vstd::arithmetic::div_mod::lemma_fundamental_div_mod_converse(
                    n + b - 1,
                    b,
                    full,
                    b - 1,
                );
            }
            assert(bucket_count(s.len(), b as nat) == out@.len());
            assert forall|i: int| 0 <= i < out@.len() implies #[trigger] out@[i] == run_peak(
                bucket_of(s, b as nat, i),
            ) by {
                if i < full {
                    lemma_bucket_inside(i, full, b);
                    assert(out@[i] == peaks@[i]);
                } else {
                    assert(bucket_of(s, b as nat, i) =~= s.subrange(full * b, n));
                }
            }
            assert(out@ =~= peaks_of(s, b as nat));
        }
        Some(
            AudioPeaks {
                duration_ns: samples * 1_000_000_000 / (PEAKS_SAMPLE_RATE as u64),
                peaks_per_sec,
                peaks: out,
            },
        )
    }
}

/// Whether a cached summary answers the current request: it must have been
/// bucketed at the current peak rate.
pub fn cache_usable(cached: &AudioPeaks) -> (r: bool)
    ensures
        r == (cached.peaks_per_sec == PEAKS_PER_SEC),
{
    cached.peaks_per_sec == PEAKS_PER_SEC
}

/// Every peak is an amplitude in 0..=1, and every sample lies under the peak
/// of the bucket it falls in.
#[verifier::spinoff_prover]
pub proof fn law_peaks_envelope_samples(samples: Seq<u32>, bucket: nat, j: int)
    requires
        bucket >= 1,
        0 <= j < samples.len(),
    ensures
        j / (bucket as int) < peaks_of(samples, bucket).len(),
        magnitude(samples[j]) <= peaks_of(samples, bucket)[j / (bucket as int)],
        forall|i: int|
            0 <= i < peaks_of(samples, bucket).len() ==> #[trigger] peaks_of(samples, bucket)[i]
                <= ONE_BITS,
{
    let b = bucket as int;
    let n = samples.len() as int;
    let q = j / b;
    let r = j % b;
    vstd::arithmetic::div_mod::lemma_fundamental_div_mod(j, b);
    assert(0 <= r < b);
    assert(q >= 0) by (nonlinear_arith)
        requires
            j >= 0,
            b >= 1,
            q == j / b,
    ;
    // q * b <= j < n, so q < ceil(n / b).
    let c = (n + b - 1) / b;
    vstd::arithmetic::div_mod::lemma_fundamental_div_mod(n + b - 1, b);
    let rr = (n + b - 1) % b;
    assert(c >= q + 1) by (nonlinear_arith)
        requires
            n + b - 1 == b * c + rr,
            0 <= rr < b,
            j == b * q + r,
            0 <= r,
            j < n,
            b >= 1,
    ;
    let run = bucket_of(samples, bucket, q);
    assert(q * b <= j) by (nonlinear_arith)
        requires
            j == b * q + r,
            r >= 0,
    ;
    assert(j - q * b < run.len()) by {
        assert(j - q * b == r) by (nonlinear_arith)
            requires
                j == b * q + r,
        ;
    }
    assert(run[j - q * b] == samples[j]);
    lemma_run_peak_covers(run, j - q * b);
    assert forall|i: int| 0 <= i < peaks_of(samples, bucket).len() implies #[trigger] peaks_of(
        samples,
        bucket,
    )[i] <= ONE_BITS by {
        lemma_run_peak_bounded(bucket_of(samples, bucket, i));
    }
}

/// A pushed sample is the little-endian word of its four bytes: the first
/// byte is the least significant, the last the most.
pub proof fn law_le_word_is_little_endian(b0: u8, b1: u8, b2: u8, b3: u8)
    ensures
        le_word(b0, b1, b2, b3) % 256 == b0,
        (le_word(b0, b1, b2, b3) / 256) % 256 == b1,
        (le_word(b0, b1, b2, b3) / 65536) % 256 == b2,
        le_word(b0, b1, b2, b3) / 16777216 == b3,
{
    let w: int = b0 + 256 * b1 + 65536 * b2 + 16777216 * b3;
    assert(0 <= w <= u32::MAX);
    assert(le_word(b0, b1, b2, b3) == w);
    assert(w % 256 == b0 && (w / 256) % 256 == b1 && (w / 65536) % 256 == b2 && w / 16777216
        == b3) by (nonlinear_arith)
        requires
            w == b0 + 256 * b1 + 65536 * b2 + 16777216 * b3,
            0 <= b0 < 256,
            0 <= b1 < 256,
            0 <= b2 < 256,
            0 <= b3 < 256,
    ;
}

} // verus!
