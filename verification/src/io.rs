//! Trait-based I/O boundaries — mockable on host, implemented by firmware BSP.
use vstd::prelude::*;

use crate::error::CoreResult;
use crate::state::ButtonEvent;

verus! {

/// Monochrome e-Paper display (200×200).
pub trait Display {
    /// The framebuffer's bytes.
    spec fn frame(&self) -> Seq<u8>;

    /// The flushes so far, oldest first: the frame pushed and what the panel
    /// answered. A verified implementation defines it from what it keeps (see
    /// `MockDisplay`); for one that keeps the empty default the contract of
    /// `flush` cannot hold, and it is only trusted to behave as stated.
    closed spec fn flushes(&self) -> Seq<(Seq<u8>, CoreResult<()>)> {
        Seq::empty()
    }

    /// Push the current framebuffer to the panel (full or partial refresh);
    /// the framebuffer itself stays as it is.
    fn flush(&mut self) -> (r: CoreResult<()>)
        ensures
            final(self).frame() == old(self).frame(),
            final(self).flushes() == old(self).flushes().push((old(self).frame(), r)),
    ;

    /// Raw 1-bit framebuffer bytes (`width * height / 8`), to draw into;
    /// drawing leaves the flush log as it was.
    fn framebuffer_mut(&mut self) -> (fb: &mut [u8])
        ensures
            fb@ == old(self).frame(),
            final(self).frame() == final(fb)@,
            final(self).flushes() == old(self).flushes(),
    ;


    fn width(&self) -> u16;

    fn height(&self) -> u16;
}

/// Audio record/playback and UI beeps.
pub trait Audio {
    /// The UI beeps played so far, oldest first.
    spec fn beeps(&self) -> Seq<SoundKind>;

    /// The volume last set. A verified implementation defines it from what
    /// it keeps (see `MockAudio`); for one that keeps the default the
    /// contracts below cannot hold, and it is only trusted to follow them.
    closed spec fn volume_level(&self) -> u8 {
        0
    }

    /// The recorder is running. Defined as `volume_level` is.
    closed spec fn recorder_on(&self) -> bool {
        false
    }

    fn set_volume(&mut self, level: u8)
        ensures
            final(self).volume_level() == level,
            final(self).recorder_on() == old(self).recorder_on(),
    ;

    /// A beep is logged and leaves the recorded PCM as it was.
    fn play_beep(&mut self, kind: SoundKind)
        ensures
            final(self).beeps() == old(self).beeps().push(kind),
            final(self).captured() == old(self).captured(),
            final(self).volume_level() == old(self).volume_level(),
            final(self).recorder_on() == old(self).recorder_on(),
    ;

    fn start_record(&mut self) -> (r: CoreResult<()>)
        ensures
            r is Ok ==> final(self).recorder_on(),
            final(self).volume_level() == old(self).volume_level(),
    ;

    fn stop_record(&mut self)
        ensures
            !final(self).recorder_on(),
            final(self).volume_level() == old(self).volume_level(),
    ;

    /// The PCM handed out by `read_record_chunk` since recording started,
    /// oldest first. A verified implementation defines it from what it keeps
    /// (see `MockAudio`); the empty default only stands in for implementations
    /// that are not verified.
    closed spec fn captured(&self) -> Seq<u8> {
        Seq::empty()
    }

    /// Fills the front of `buf` with recorded PCM and returns how many bytes
    /// it wrote, at most `buf.len()`.
    fn read_record_chunk(&mut self, buf: &mut [u8]) -> (r: CoreResult<usize>)
        ensures
            final(buf)@.len() == old(buf)@.len(),
            r matches Ok(n) ==> n <= old(buf)@.len() && final(self).captured() == old(self).captured()
                + final(buf)@.take(n as int),
            r is Err ==> final(self).captured() == old(self).captured(),
    ;

    fn start_playback(&mut self, path: &str) -> CoreResult<()>;

    fn stop_playback(&mut self);

    fn is_playing(&self) -> bool;
}

/// Physical button levels (active LOW on hardware).
pub trait Buttons {
    fn rec_pressed(&self) -> bool;

    fn pwr_pressed(&self) -> bool;
}

/// Power rail control — order matters for bring-up.
pub trait PowerRails {
    /// The rail steps taken so far, oldest first, by name.
    spec fn steps(&self) -> Seq<Seq<char>>;

    fn battery_hold_on(&mut self)
        ensures
            final(self).steps() == old(self).steps().push("battery_hold_on"@),
    ;

    fn epd_power_on(&mut self)
        ensures
            final(self).steps() == old(self).steps().push("epd_power_on"@),
    ;

    fn audio_power_on(&mut self)
        ensures
            final(self).steps() == old(self).steps().push("audio_power_on"@),
    ;

    fn epd_power_off(&mut self)
        ensures
            final(self).steps() == old(self).steps().push("epd_power_off"@),
    ;

    fn audio_power_off(&mut self)
        ensures
            final(self).steps() == old(self).steps().push("audio_power_off"@),
    ;

    fn logged_sequence(&self) -> &[&'static str];
}

/// UI sound kinds.
#[derive(Debug, Clone, Copy, PartialEq, Eq, Hash, Structural)]
pub enum SoundKind {
    Select,
    Next,
    Back,
    Saved,
    Delete,
    Success,
    Error,
}

/// Clock for timers (sleep, debounce, ticker).
pub trait Clock {
    fn now_ms(&self) -> u64;
}

/// Optional RTC / NTP time source.
pub trait TimeSource {
    fn utc_iso(&self) -> Option<String>;

    fn set_utc_iso(&mut self, iso: &str) -> CoreResult<()>;
}

/// Battery ADC reader.
pub trait BatteryAdc {
    fn read_mv_samples(&mut self, count: usize) -> CoreResult<Vec<u32>>;
}

/// Button event source (debounced).
pub trait ButtonEvents {
    fn poll_rec(&mut self, now_ms: u64) -> ButtonEvent;

    fn poll_pwr(&mut self, now_ms: u64) -> ButtonEvent;

    fn idle_rec_hold_started(&mut self, now_ms: u64) -> bool;
}

} // verus!
