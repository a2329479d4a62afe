//! Host-testable mock BSP implementations.
use std::collections::HashMap;

use vstd::prelude::*;

use crate::error::CoreResult;
use crate::io::{Audio, BatteryAdc, Buttons, Clock, Display, PowerRails, SoundKind, TimeSource};
use crate::network::whisper::{Progress, RetryDelay};
use crate::text::owned;
use vstd::std_specs::hash::obeys_key_model;
use vstd::string::StringSliceAdditionalSpecFns;

verus! {

pub const EPD_WIDTH: u16 = 200;

pub const EPD_HEIGHT: u16 = 200;

pub const FRAMEBUFFER_BYTES: usize = 5000;

/// In-memory 200×200 mono framebuffer display.
#[derive(Debug, Clone)]
pub struct MockDisplay {
    pub buffer: Vec<u8>,
    pub flush_count: u32,
    /// A copy of the framebuffer at each flush, oldest first.
    pub flushed: Vec<Vec<u8>>,
}

impl MockDisplay {
    /// A blank (all white) panel.
    pub fn new() -> (d: Self)
        ensures
            d.buffer@ == Seq::new(FRAMEBUFFER_BYTES as nat, |i: int| 0xFFu8),
            d.flush_count == 0,
            d.flushed@.len() == 0,
    {
        let mut buffer: Vec<u8> = Vec::new();
        let mut i: usize = 0;
        while i < FRAMEBUFFER_BYTES
            invariant
                i <= FRAMEBUFFER_BYTES,
                buffer@ == Seq::new(i as nat, |k: int| 0xFFu8),
            decreases FRAMEBUFFER_BYTES - i,
        {
            buffer.push(0xFF);
            i += 1;
            assert(buffer@ =~= Seq::new(i as nat, |k: int| 0xFFu8));
        }
        MockDisplay { buffer, flush_count: 0, flushed: Vec::new() }
    }

    /// Every byte is white (`0xFF`) or every byte is black (`0x00`).
    pub fn is_solid(&self, white: bool) -> (r: bool)
        ensures
            r == (forall|i: int| 0 <= i < self.buffer@.len() ==> self.buffer@[i] == (if white { 0xFFu8 } else { 0x00u8 })),
    {
        let byte: u8 = if white { 0xFF } else { 0x00 };
        let mut i: usize = 0;
        while i < self.buffer.len()
            invariant
                i <= self.buffer@.len(),
                byte == (if white { 0xFFu8 } else { 0x00u8 }),
                forall|k: int| 0 <= k < i ==> self.buffer@[k] == byte,
            decreases self.buffer@.len() - i,
        {
            if self.buffer[i] != byte {
                assert(self.buffer@[i as int] != (if white { 0xFFu8 } else { 0x00u8 }));
                return false;
            }
            i += 1;
        }
        true
    }
}

impl Default for MockDisplay {
    fn default() -> (d: Self)
        ensures
            d.buffer@ == Seq::new(FRAMEBUFFER_BYTES as nat, |i: int| 0xFFu8),
            d.flush_count == 0,
    {
        MockDisplay::new()
    }
}

impl Display for MockDisplay {
    open spec fn frame(&self) -> Seq<u8> {
        self.buffer@
    }

    open spec fn flushes(&self) -> Seq<(Seq<u8>, CoreResult<()>)> {
        self.flushed@.map_values(|f: Vec<u8>| (f@, Ok::<(), crate::error::CoreError>(())))
    }

    fn flush(&mut self) -> (r: CoreResult<()>)
        ensures
            r is Ok,
    {
        if self.flush_count < u32::MAX {
            self.flush_count = self.flush_count + 1;
        }
        let mut copy: Vec<u8> = Vec::new();
        let mut i: usize = 0;
        while i < self.buffer.len()
            invariant
                i <= self.buffer@.len(),
                copy@ == self.buffer@.take(i as int),
            decreases self.buffer@.len() - i,
        {
            copy.push(self.buffer[i]);
            i += 1;
            assert(copy@ =~= self.buffer@.take(i as int));
        }
        assert(self.buffer@.take(self.buffer@.len() as int) =~= self.buffer@);
        let ghost before = self.flushed@;
        self.flushed.push(copy);
        assert(self.flushes() =~= old(self).flushes().push((old(self).frame(), Ok::<(), crate::error::CoreError>(()))));
        Ok(())
    }

    fn framebuffer_mut(&mut self) -> &mut [u8] {
        self.buffer.as_mut_slice()
    }

    fn width(&self) -> u16 {
        EPD_WIDTH
    }

    fn height(&self) -> u16 {
        EPD_HEIGHT
    }
}

/// Programmable button levels for tests.
#[derive(Debug, Clone, Default)]
pub struct MockButtons {
    pub rec: bool,
    pub pwr: bool,
}

impl Buttons for MockButtons {
    fn rec_pressed(&self) -> (r: bool)
        ensures
            r == self.rec,
    {
        self.rec
    }

    fn pwr_pressed(&self) -> (r: bool)
        ensures
            r == self.pwr,
    {
        self.pwr
    }
}

/// Logs power rail transitions.
#[derive(Debug, Clone, Default)]
pub struct MockPowerRails {
    pub log: Vec<&'static str>,
}

impl MockPowerRails {
    pub fn new() -> (m: Self)
        ensures
            m.log@.len() == 0,
    {
        MockPowerRails { log: Vec::new() }
    }

    fn push(&mut self, step: &'static str)
        ensures
            final(self).log@ == old(self).log@.push(step),
    {
        self.log.push(step);
    }
}

impl PowerRails for MockPowerRails {
    open spec fn steps(&self) -> Seq<Seq<char>> {
        self.log@.map_values(|s: &'static str| s@)
    }

    fn battery_hold_on(&mut self) {
        self.push("battery_hold_on");
        assert(self.steps() =~= old(self).steps().push("battery_hold_on"@));
    }

    fn epd_power_on(&mut self) {
        self.push("epd_power_on");
        assert(self.steps() =~= old(self).steps().push("epd_power_on"@));
    }

    fn audio_power_on(&mut self) {
        self.push("audio_power_on");
        assert(self.steps() =~= old(self).steps().push("audio_power_on"@));
    }

    fn epd_power_off(&mut self) {
        self.push("epd_power_off");
        assert(self.steps() =~= old(self).steps().push("epd_power_off"@));
    }

    fn audio_power_off(&mut self) {
        self.push("audio_power_off");
        assert(self.steps() =~= old(self).steps().push("audio_power_off"@));
    }

    fn logged_sequence(&self) -> (r: &[&'static str])
        ensures
            r@ == self.log@,
    {
        self.log.as_slice()
    }
}

/// Records beeps and simulates record/playback.
#[derive(Debug, Clone, Default)]
pub struct MockAudio {
    pub beep_log: Vec<SoundKind>,
    pub recording: bool,
    pub playing: bool,
    pub record_chunks: Vec<Vec<u8>>,
    pub volume: u8,
}

impl MockAudio {
    pub fn new() -> (a: Self)
        ensures
            a.beep_log@.len() == 0,
            !a.recording,
            !a.playing,
            a.record_chunks@.len() == 0,
            a.volume == 0,
    {
        MockAudio {
            beep_log: Vec::new(),
            recording: false,
            playing: false,
            record_chunks: Vec::new(),
            volume: 0,
        }
    }

    /// Log a chunk of recorded PCM.
    pub fn push_pcm(&mut self, data: &[u8])
        ensures
            final(self).record_chunks@.len() == old(self).record_chunks@.len() + 1,
            final(self).record_chunks@.drop_last() == old(self).record_chunks@,
            final(self).record_chunks@.last()@ == data@,
            final(self).recording == old(self).recording,
            final(self).playing == old(self).playing,
            final(self).volume == old(self).volume,
            final(self).beep_log@ == old(self).beep_log@,
    {
        let mut v: Vec<u8> = Vec::new();
        let mut i: usize = 0;
        while i < data.len()
            invariant
                i <= data@.len(),
                v@ == data@.take(i as int),
            decreases data@.len() - i,
        {
            v.push(data[i]);
            i += 1;
            assert(v@ =~= data@.take(i as int));
        }
        assert(data@.take(data@.len() as int) =~= data@);
        self.record_chunks.push(v);
        assert(self.record_chunks@.drop_last() =~= old(self).record_chunks@);
    }
}

impl Audio for MockAudio {
    open spec fn beeps(&self) -> Seq<SoundKind> {
        self.beep_log@
    }

    open spec fn volume_level(&self) -> u8 {
        self.volume
    }

    open spec fn recorder_on(&self) -> bool {
        self.recording
    }

    open spec fn captured(&self) -> Seq<u8> {
        self.record_chunks@.map_values(|c: Vec<u8>| c@).flatten()
    }

    fn set_volume(&mut self, level: u8)
        ensures
            final(self).volume == level,
            final(self).recording == old(self).recording,
            final(self).playing == old(self).playing,
            final(self).beep_log@ == old(self).beep_log@,
            final(self).record_chunks@ == old(self).record_chunks@,
    {
        self.volume = level;
    }

    fn play_beep(&mut self, kind: SoundKind) {
        self.beep_log.push(kind);
    }

    fn start_record(&mut self) -> (r: CoreResult<()>)
        ensures
            r is Ok,
            final(self).recording,
            final(self).record_chunks@.len() == 0,
            final(self).playing == old(self).playing,
            final(self).volume == old(self).volume,
            final(self).beep_log@ == old(self).beep_log@,
    {
        self.recording = true;
        self.record_chunks.clear();
        Ok(())
    }

    fn stop_record(&mut self)
        ensures
            !final(self).recording,
            final(self).playing == old(self).playing,
            final(self).volume == old(self).volume,
            final(self).beep_log@ == old(self).beep_log@,
            final(self).record_chunks@ == old(self).record_chunks@,
    {
        self.recording = false;
    }

    /// While recording, fills up to 512 bytes with `0x7F` and logs them.
    fn read_record_chunk(&mut self, buf: &mut [u8]) -> (r: CoreResult<usize>)
        ensures
            !old(self).recording ==> r == Ok::<usize, crate::error::CoreError>(0)
                && final(buf)@ == old(buf)@
                && final(self).record_chunks@ == old(self).record_chunks@,
            old(self).recording ==> {
                let fill = if old(buf)@.len() < 512 { old(buf)@.len() } else { 512 };
                &&& r == Ok::<usize, crate::error::CoreError>(fill as usize)
                &&& final(buf)@ == Seq::new(fill, |i: int| 0x7Fu8) + old(buf)@.skip(fill as int)
                &&& final(self).record_chunks@.drop_last() == old(self).record_chunks@
                &&& final(self).record_chunks@.len() == old(self).record_chunks@.len() + 1
                &&& final(self).record_chunks@.last()@ == Seq::new(fill, |i: int| 0x7Fu8)
            },
            final(self).recording == old(self).recording,
            final(self).playing == old(self).playing,
            final(self).volume == old(self).volume,
            final(self).beep_log@ == old(self).beep_log@,
    {
        if !self.recording {
            return Ok(0);
        }
        let fill = if buf.len() < 512 { buf.len() } else { 512 };
        let mut i: usize = 0;
        while i < fill
            invariant
                i <= fill <= buf@.len(),
                buf@.len() == old(buf)@.len(),
                forall|k: int| 0 <= k < i ==> buf@[k] == 0x7Fu8,
                forall|k: int| fill <= k < buf@.len() ==> buf@[k] == old(buf)@[k],
            decreases fill - i,
        {
            buf[i] = 0x7F;
            i += 1;
        }
        let mut filled: Vec<u8> = Vec::new();
        let mut k: usize = 0;
        while k < fill
            invariant
                k <= fill <= buf@.len(),
                filled@ == Seq::new(k as nat, |j: int| 0x7Fu8),
                forall|j: int| 0 <= j < fill ==> buf@[j] == 0x7Fu8,
            decreases fill - k,
        {
            filled.push(buf[k]);
            k += 1;
            assert(filled@ =~= Seq::new(k as nat, |j: int| 0x7Fu8));
        }
        assert(buf@ =~= Seq::new(fill as nat, |j: int| 0x7Fu8) + old(buf)@.skip(fill as int));
        let ghost chunks0 = self.record_chunks@;
        self.push_pcm(filled.as_slice());
        proof {
            let views0 = chunks0.map_values(|c: Vec<u8>| c@);
            assert(self.record_chunks@.map_values(|c: Vec<u8>| c@) =~= views0.push(filled@));
            views0.lemma_flatten_push(filled@);
            assert(buf@.take(fill as int) =~= filled@);
        }
        Ok(fill)
    }

    fn start_playback(&mut self, path: &str) -> (r: CoreResult<()>)
        ensures
            r is Ok,
            final(self).playing,
            final(self).recording == old(self).recording,
            final(self).volume == old(self).volume,
            final(self).beep_log@ == old(self).beep_log@,
            final(self).record_chunks@ == old(self).record_chunks@,
    {
        self.playing = true;
        Ok(())
    }

    fn stop_playback(&mut self)
        ensures
            !final(self).playing,
            final(self).recording == old(self).recording,
            final(self).volume == old(self).volume,
            final(self).beep_log@ == old(self).beep_log@,
            final(self).record_chunks@ == old(self).record_chunks@,
    {
        self.playing = false;
    }

    fn is_playing(&self) -> (r: bool)
        ensures
            r == self.playing,
    {
        self.playing
    }
}

/// Fake clock with manual advance.
#[derive(Debug, Clone, Default)]
pub struct MockClock {
    pub now_ms: u64,
}

impl Clock for MockClock {
    fn now_ms(&self) -> (r: u64)
        ensures
            r == self.now_ms,
    {
        self.now_ms
    }
}

/// Fixed UTC time for tests.
#[derive(Debug, Clone, Default)]
pub struct MockTime {
    pub utc: Option<String>,
}

impl TimeSource for MockTime {
    fn utc_iso(&self) -> (r: Option<String>)
        ensures
            match self.utc {
                Some(s) => r matches Some(t) && t@ == s@,
                None => r is None,
            },
    {
        match &self.utc {
            Some(s) => Some(owned(s.as_str())),
            None => None,
        }
    }

    fn set_utc_iso(&mut self, iso: &str) -> (r: CoreResult<()>)
        ensures
            r is Ok,
            final(self).utc matches Some(t) && t@ == iso@,
    {
        self.utc = Some(owned(iso));
        Ok(())
    }
}

/// Simulated battery ADC samples.
#[derive(Debug, Clone)]
pub struct MockBatteryAdc {
    pub samples_mv: Vec<u32>,
}

impl BatteryAdc for MockBatteryAdc {
    /// The first `count` samples (all of them when there are fewer).
    fn read_mv_samples(&mut self, count: usize) -> (r: CoreResult<Vec<u32>>)
        ensures
            r matches Ok(v) && v@ == old(self).samples_mv@.take(
                if count < old(self).samples_mv@.len() { count as int } else { old(self).samples_mv@.len() as int },
            ),
            final(self).samples_mv@ == old(self).samples_mv@,
    {
        let n = if count < self.samples_mv.len() { count } else { self.samples_mv.len() };
        let mut out: Vec<u32> = Vec::new();
        let mut i: usize = 0;
        while i < n
            invariant
                i <= n <= self.samples_mv@.len(),
                out@ == self.samples_mv@.take(i as int),
            decreases n - i,
        {
            out.push(self.samples_mv[i]);
            i += 1;
            assert(out@ =~= self.samples_mv@.take(i as int));
        }
        Ok(out)
    }
}

/// Records the waits asked for instead of sleeping.
#[derive(Debug, Clone, Default)]
pub struct MockDelay {
    pub waits: Vec<u64>,
}

impl RetryDelay for MockDelay {
    open spec fn waits(&self) -> Seq<u64> {
        self.waits@
    }

    fn delay_ms(&mut self, ms: u64) {
        self.waits.push(ms);
    }
}

/// Records every `(done, total)` report.
#[derive(Debug, Clone, Default)]
pub struct MockProgress {
    pub reports: Vec<(usize, usize)>,
}

impl Progress for MockProgress {
    open spec fn reports(&self) -> Seq<(usize, usize)> {
        self.reports@
    }

    fn on_progress(&mut self, done: usize, total: usize) {
        self.reports.push((done, total));
    }
}

/// Pin-level button schedule: `(time_ms, rec, pwr)`.
#[derive(Debug, Clone)]
pub struct ButtonSchedule {
    pub events: Vec<(u64, bool, bool)>,
}

/// Levels set by the last event at or before `now` (both released before any).
pub open spec fn levels_at(events: Seq<(u64, bool, bool)>, now: u64) -> (bool, bool)
    decreases events.len(),
{
    if events.len() == 0 {
        (false, false)
    } else if events.last().0 <= now {
        (events.last().1, events.last().2)
    } else {
        levels_at(events.drop_last(), now)
    }
}

impl ButtonSchedule {
    pub fn apply_at(&self, buttons: &mut MockButtons, now_ms: u64)
        ensures
            (final(buttons).rec, final(buttons).pwr) == levels_at(self.events@, now_ms),
    {
        let mut rec = false;
        let mut pwr = false;
        let mut i: usize = 0;
        let ghost ev = self.events@;
        while i < self.events.len()
            invariant
                ev == self.events@,
                i <= ev.len(),
                (rec, pwr) == levels_at(ev.take(i as int), now_ms),
            decreases ev.len() - i,
        {
            let (t, r, p) = self.events[i];
            assert(ev.take(i + 1).drop_last() =~= ev.take(i as int));
            if t <= now_ms {
                rec = r;
                pwr = p;
            }
            i += 1;
        }
        assert(ev.take(ev.len() as int) =~= ev);
        buttons.rec = rec;
        buttons.pwr = pwr;
    }
}

/// In-memory note file registry for portal tests.
#[derive(Debug, Default)]
pub struct MockFileRegistry {
    pub files: HashMap<String, Vec<u8>>,
}

impl MockFileRegistry {
    /// Stores `content`'s UTF-8 bytes under `path`, replacing what was there.
    pub fn insert_str(&mut self, path: &str, content: &str)
        ensures
            obeys_key_model::<String>() ==> exists|k: String, v: Vec<u8>|
                k@ == path@ && v@ == content.spec_bytes()
                && #[trigger] final(self).files@ == old(self).files@.insert(k, v),
    {
        let mut bytes: Vec<u8> = Vec::new();
        let b = content.as_bytes();
        let mut i: usize = 0;
        while i < b.len()
            invariant
                i <= b@.len(),
                bytes@ == b@.take(i as int),
            decreases b@.len() - i,
        {
            bytes.push(b[i]);
            i += 1;
            assert(bytes@ =~= b@.take(i as int));
        }
        assert(b@.take(b@.len() as int) =~= b@);
        let key = owned(path);
        let ghost gk = key;
        let ghost gv = bytes;
        self.files.insert(key, bytes);
        assert(obeys_key_model::<String>() ==> self.files@ == old(self).files@.insert(gk, gv));
    }
}

} // verus!
