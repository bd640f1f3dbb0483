use nes::apu::{Apu, ApuEnvelope, ApuLength, ApuTimer, CYCLES_PER_EVEN_TICK, CYCLES_PER_ODD_TICK, NES_SAMPLES_PER_TICK, SAMPLE_COUNT};
use nes::mem::Mem;
use nes::util::Save;

#[test]
fn status_register_reads_back() {
    let mut apu = Apu::new();
    apu.storeb(0x4015, 0x0f);
    assert_eq!(apu.loadb(0x4015), 0x0f);
    assert_eq!(apu.loadb(0x4000), 0);
    assert!(apu.regs.status.pulse_enabled(0));
    assert!(apu.regs.status.pulse_enabled(1));
    assert!(apu.regs.status.triangle_enabled());
    assert!(apu.regs.status.noise_enabled());
}

#[test]
fn step_runs_whole_ticks() {
    let mut apu = Apu::new();
    apu.step(CYCLES_PER_EVEN_TICK - 1);
    assert_eq!((apu.cy, apu.ticks, apu.sample_buffer_offset), (0, 0, 0));
    apu.step(CYCLES_PER_EVEN_TICK);
    assert_eq!(apu.ticks, 1);
    assert_eq!(apu.cy, CYCLES_PER_EVEN_TICK);
    assert_eq!(apu.sample_buffer_offset, NES_SAMPLES_PER_TICK as usize);
    apu.step(CYCLES_PER_EVEN_TICK + CYCLES_PER_ODD_TICK);
    assert_eq!(apu.ticks, 2);
    assert_eq!(apu.cy, CYCLES_PER_EVEN_TICK + CYCLES_PER_ODD_TICK);
}

#[test]
fn play_channels_when_buffers_are_full() {
    let mut apu = Apu::new();
    assert!(!apu.play_channels());
    let ticks = SAMPLE_COUNT / NES_SAMPLES_PER_TICK as usize;
    let mut cycles = 0u64;
    for t in 0..ticks {
        cycles += if t % 2 == 0 { CYCLES_PER_EVEN_TICK } else { CYCLES_PER_ODD_TICK };
    }
    apu.step(cycles);
    assert_eq!(apu.sample_buffer_offset, SAMPLE_COUNT);
    assert!(apu.play_channels());
    assert_eq!(apu.sample_buffer_offset, 0);
    // All channels silent: the mix is silent.
    assert!(apu.sample_buffers[..SAMPLE_COUNT].iter().all(|&s| s == 0));
}

#[test]
fn pulse_channel_makes_a_square_wave() {
    let mut apu = Apu::new();
    apu.storeb(0x4015, 0x01);
    // Duty 50%, constant volume 15.
    apu.storeb(0x4000, 0xbf);
    apu.storeb(0x4002, 0x00);
    apu.storeb(0x4003, 0x09);
    apu.step(CYCLES_PER_EVEN_TICK);
    let pulse0 = &apu.sample_buffers[..NES_SAMPLES_PER_TICK as usize];
    assert!(pulse0.iter().any(|&s| s > 0));
    assert!(pulse0.iter().any(|&s| s == 0));
    let triangle = &apu.sample_buffers[2 * SAMPLE_COUNT..2 * SAMPLE_COUNT + NES_SAMPLES_PER_TICK as usize];
    assert!(triangle.iter().all(|&s| s == 0));
}

#[test]
fn length_counter_loads_and_counts_down() {
    let mut l = ApuLength::new();
    // Index 1 of the length table (254), disable bit 5 clear.
    l.storeb(0x4003, 0x08, 5);
    assert_eq!(l.remaining, 254);
    l.decrement();
    assert_eq!(l.remaining, 253);
    l.storeb(0x4000, 0x20, 5);
    assert!(l.disable);
}

#[test]
fn envelope_and_timer_registers() {
    let mut e = ApuEnvelope::new();
    e.storeb(0x4000, 0x1f);
    assert_eq!(e.volume, 15);
    assert!(!e.enabled);
    let mut t = ApuTimer::new();
    t.storeb(0x4002, 0x34);
    t.storeb(0x4003, 0x05);
    assert_eq!(t.value, 0x534);
}

#[test]
fn apu_savestate_keeps_counters() {
    let mut apu = Apu::new();
    apu.storeb(0x4015, 0x05);
    apu.step(CYCLES_PER_EVEN_TICK + CYCLES_PER_ODD_TICK);
    let mut bytes = Vec::new();
    apu.save(&mut bytes);
    assert_eq!(bytes.len(), 84);
    let mut other = Apu::new();
    assert_eq!(other.load(&bytes, 0), 84);
    assert_eq!(other.cy, apu.cy);
    assert_eq!(other.ticks, apu.ticks);
    assert_eq!(other.regs.status.val, 0x05);
    assert!(other.regs.pulses[0].envelope.length.disable == apu.regs.pulses[0].envelope.length.disable);
    assert!(other.regs.pulses[0].envelope.enabled == apu.regs.pulses[0].envelope.enabled);
}

#[test]
fn apu_savestate_restores_flags() {
    let mut apu = Apu::new();
    // Length halt set (disable bit 5), envelope on (bit 4 clear).
    apu.storeb(0x4000, 0x20);
    assert!(apu.regs.pulses[0].envelope.length.disable);
    let mut bytes = Vec::new();
    apu.save(&mut bytes);
    let mut other = Apu::new();
    other.load(&bytes, 0);
    assert!(other.regs.pulses[0].envelope.length.disable);
    assert!(other.regs.pulses[0].envelope.enabled == apu.regs.pulses[0].envelope.enabled);
    assert!(!other.regs.pulses[1].envelope.length.disable);
}
