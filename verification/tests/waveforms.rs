use breez::peaks::AudioPeaks;
use breez::project::MusicTrack;
use breez::waveforms::Waveforms;
use std::sync::mpsc;

fn peaks(duration_ns: u64) -> AudioPeaks {
    AudioPeaks { duration_ns, peaks_per_sec: 50, peaks: vec![0, 1] }
}

fn track(file: &str, duration_ns: u64) -> MusicTrack {
    MusicTrack {
        file: file.to_owned(),
        offset_ns: 0,
        gain_millionths: 500_000,
        fade_in_ns: 0,
        fade_out_ns: 0,
        duration_ns,
    }
}

#[test]
fn a_file_should_have_no_peaks_until_its_decode_reports() {
    let (_tx, rx) = mpsc::channel();
    let mut shelf = Waveforms::new(rx);
    assert!(shelf.get(&"a.mp3".to_owned()).is_none());
    shelf.record("a.mp3".to_owned(), Some(peaks(5)));
    assert_eq!(shelf.get(&"a.mp3".to_owned()).map(|p| p.duration_ns), Some(5));
    shelf.record("a.mp3".to_owned(), None);
    assert!(shelf.get(&"a.mp3".to_owned()).is_none());
}

#[test]
fn poll_should_backfill_an_unknown_length_once() {
    let (tx, rx) = mpsc::channel();
    let mut shelf = Waveforms::new(rx);
    let mut music = vec![track("a.mp3", 0), track("b.mp3", 9)];
    tx.send(("a.mp3".to_owned(), Some(peaks(3_000)))).unwrap();
    tx.send(("b.mp3".to_owned(), Some(peaks(7_000)))).unwrap();
    tx.send(("c.mp3".to_owned(), None)).unwrap();
    assert!(shelf.poll(&mut music));
    assert_eq!(music[0].duration_ns, 3_000);
    assert_eq!(music[1].duration_ns, 9);
    assert_eq!(shelf.get(&"b.mp3".to_owned()).map(|p| p.duration_ns), Some(7_000));
    assert!(shelf.get(&"c.mp3".to_owned()).is_none());
    assert!(!shelf.poll(&mut music));
    drop(tx);
    assert!(!shelf.poll(&mut music));
}
