use nes::audio::{close, AudioLock, NesAudioCallback, SAMPLE_COUNT};

#[test]
fn fill_copies_from_play_offset() {
    let mut cb = NesAudioCallback::new();
    for i in 0..SAMPLE_COUNT {
        cb.samples[i] = (i % 256) as u8;
    }
    cb.play_offset = 10;
    let mut out = [0xeeu8; 4];
    cb.fill(&mut out);
    assert_eq!(out, [10, 11, 12, 13]);
    assert_eq!(cb.play_offset, 14);
}

#[test]
fn fill_stops_at_end_of_buffer() {
    let mut cb = NesAudioCallback::new();
    cb.samples[SAMPLE_COUNT - 1] = 7;
    cb.play_offset = SAMPLE_COUNT - 1;
    let mut out = [0xeeu8; 3];
    cb.fill(&mut out);
    assert_eq!(out, [7, 0xee, 0xee]);
    assert_eq!(cb.play_offset, SAMPLE_COUNT);
    let mut out = [0x55u8; 2];
    cb.fill(&mut out);
    assert_eq!(out, [0x55, 0x55]);
    assert_eq!(cb.play_offset, SAMPLE_COUNT);
}

#[test]
fn lock_and_close() {
    let _l = AudioLock::lock();
    close();
}
