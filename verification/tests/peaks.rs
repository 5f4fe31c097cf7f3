use breez::peaks::{cache_usable, sample_magnitude, AudioPeaks, PeakMeter, PEAKS_PER_SEC};

fn amp(bits: u32) -> f32 {
    f32::from_bits(bits)
}

#[test]
fn magnitude_should_be_the_absolute_value_held_at_one() {
    assert_eq!(amp(sample_magnitude((-0.25f32).to_bits())), 0.25);
    assert_eq!(amp(sample_magnitude(0.5f32.to_bits())), 0.5);
    assert_eq!(amp(sample_magnitude(3.0f32.to_bits())), 1.0);
    assert_eq!(amp(sample_magnitude(f32::NEG_INFINITY.to_bits())), 1.0);
    assert_eq!(amp(sample_magnitude(f32::NAN.to_bits())), 1.0);
    assert_eq!(amp(sample_magnitude((-0.0f32).to_bits())), 0.0);
}

#[test]
fn meter_should_keep_one_peak_per_bucket_and_a_trailing_partial_one() {
    let mut meter = PeakMeter::new(PEAKS_PER_SEC);
    for i in 0..160u32 {
        let v = if i == 7 { -0.75f32 } else { 0.1 };
        meter.push(v.to_bits());
    }
    for i in 0..160u32 {
        let v = if i == 100 { f32::NAN } else { 0.2 };
        meter.push_le(v.to_le_bytes());
    }
    for _ in 0..10 {
        meter.push(0.3f32.to_bits());
    }
    assert_eq!(meter.sample_count(), 330);
    let peaks = meter.finish(true).expect("peaks");
    let values: Vec<f32> = peaks.peaks.iter().map(|b| f32::from_bits(*b)).collect();
    assert_eq!(values, vec![0.75, 1.0, 0.3]);
    assert_eq!(peaks.peaks_per_sec, PEAKS_PER_SEC);
    assert_eq!(peaks.duration_ns, 330 * 1_000_000_000 / 8_000);
}

#[test]
fn meter_should_have_no_trailing_peak_after_a_full_bucket() {
    let mut meter = PeakMeter::new(PEAKS_PER_SEC);
    for _ in 0..320 {
        meter.push(0.5f32.to_bits());
    }
    let peaks = meter.finish(true).expect("peaks");
    assert_eq!(peaks.peaks.len(), 2);
    assert_eq!(peaks.duration_ns, 40_000_000);
}

#[test]
fn a_failed_or_empty_decode_should_have_no_peaks() {
    assert!(PeakMeter::new(PEAKS_PER_SEC).finish(true).is_none());
    let mut meter = PeakMeter::new(PEAKS_PER_SEC);
    meter.push(0.5f32.to_bits());
    assert!(meter.finish(false).is_none());
}

#[test]
fn a_zero_peak_rate_should_still_bucket() {
    let mut meter = PeakMeter::new(0);
    for _ in 0..8_001 {
        meter.push(0.5f32.to_bits());
    }
    assert_eq!(meter.finish(true).expect("peaks").peaks.len(), 2);
    let mut fast = PeakMeter::new(100_000);
    fast.push(0.5f32.to_bits());
    fast.push(0.25f32.to_bits());
    assert_eq!(fast.finish(true).expect("peaks").peaks.len(), 2);
}

#[test]
fn a_cache_bucketed_at_another_rate_should_not_be_used() {
    let current = AudioPeaks { duration_ns: 1, peaks_per_sec: PEAKS_PER_SEC, peaks: vec![0] };
    let stale = AudioPeaks { duration_ns: 1, peaks_per_sec: 25, peaks: vec![0] };
    assert!(cache_usable(&current));
    assert!(!cache_usable(&stale));
}
