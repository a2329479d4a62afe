//! UI sound policy: the settings toggle and the beep log.
use vstd::prelude::*;

use crate::io::{Audio, SoundKind};

verus! {

/// Logs or plays UI beeps; respects enabled flag from settings.
#[derive(Debug, Clone, PartialEq, Eq)]
pub struct SoundsPolicy {
    pub enabled: bool,
    pub events: Vec<SoundKind>,
}

impl SoundsPolicy {
    pub fn new(enabled: bool) -> (p: Self)
        ensures
            p.enabled == enabled,
            p.events@ == Seq::<SoundKind>::empty(),
    {
        Self { enabled, events: Vec::new() }
    }

    pub fn set_enabled(&mut self, enabled: bool)
        ensures
            final(self).enabled == enabled,
            final(self).events@ == old(self).events@,
    {
        self.enabled = enabled;
    }

    /// Logs `kind`; the beep itself reaches `audio` only when sounds are enabled.
    pub fn play<A: Audio>(&mut self, audio: &mut A, kind: SoundKind)
        ensures
            final(self).events@ == old(self).events@.push(kind),
            final(self).enabled == old(self).enabled,
            !old(self).enabled ==> *final(audio) == *old(audio),
            old(self).enabled ==> final(audio).beeps() == old(audio).beeps().push(kind),
            old(self).enabled ==> final(audio).captured() == old(audio).captured()
                && final(audio).volume_level() == old(audio).volume_level() && final(audio).recorder_on()
                == old(audio).recorder_on(),
    {
        self.events.push(kind);
        if self.enabled {
            audio.play_beep(kind);
        }
    }

    pub fn last_event(&self) -> (e: Option<SoundKind>)
        ensures
            e == (if self.events@.len() == 0 {
                None
            } else {
                Some(self.events@.last())
            }),
    {
        if self.events.len() == 0 {
            None
        } else {
            Some(self.events[self.events.len() - 1])
        }
    }

    pub fn clear_log(&mut self)
        ensures
            final(self).events@ == Seq::<SoundKind>::empty(),
            final(self).enabled == old(self).enabled,
    {
        self.events.clear();
    }
}

impl Default for SoundsPolicy {
    fn default() -> (p: Self)
        ensures
            p.enabled,
            p.events@ == Seq::<SoundKind>::empty(),
    {
        Self::new(true)
    }
}

} // verus!
