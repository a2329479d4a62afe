//! Immediate-mode OLED screens for QR scan → string.
use vstd::prelude::*;

use crate::display::oled::draw::{
    battery_bar_spec, clear, draw_battery_bar, draw_hints, draw_str_centered, ohints_spec,
    ostr_centered, BLACK, BYTES, HEIGHT, WIDTH,
};
use crate::state_qr::QrAppState;
use crate::text::{chars_of, push_char, string_from_chars};

verus! {

#[derive(Debug, Clone, Copy, PartialEq, Eq, Structural)]
pub enum OledScreenId {
    Idle,
    Aiming,
    Decoded,
    Fail,
    Export,
}

pub struct OledUiContext<'a> {
    pub buf: &'a mut [u8],
    pub battery_pct: Option<u8>,
    pub payload: &'a str,
    pub fail_reason: &'a str,
}

/// `s` cut to `max_chars` characters, the last one replaced by `…` when cut.
pub open spec fn ellipsized(s: Seq<char>, max_chars: nat) -> Seq<char> {
    if s.len() <= max_chars {
        s
    } else if max_chars == 0 {
        Seq::empty()
    } else {
        s.take(max_chars - 1).push('…')
    }
}

/// Truncate to `max_chars`, appending `…` when shortened.
pub fn truncate_ellipsis(s: &str, max_chars: usize) -> (r: String)
    ensures
        r@ == ellipsized(s@, max_chars as nat),
{
    let cs = chars_of(s);
    if cs.len() <= max_chars {
        return string_from_chars(&cs);
    }
    if max_chars == 0 {
        return String::new();
    }
    let take = max_chars - 1;
    let mut out = String::new();
    let mut i: usize = 0;
    while i < take
        invariant
            take < cs@.len(),
            i <= take,
            out@ == cs@.take(i as int),
        decreases take - i,
    {
        push_char(&mut out, cs[i]);
        i += 1;
        assert(out@ =~= cs@.take(i as int));
    }
    push_char(&mut out, '…');
    out
}

/// The screen shown for each scanner state.
pub open spec fn oled_screen_of(state: QrAppState) -> OledScreenId {
    match state {
        QrAppState::Idle => OledScreenId::Idle,
        QrAppState::Aiming => OledScreenId::Aiming,
        QrAppState::Decoded => OledScreenId::Decoded,
        QrAppState::Fail => OledScreenId::Fail,
        QrAppState::Export => OledScreenId::Export,
    }
}

/// The framebuffer for `state`, drawn on a cleared panel of `n` bytes.
pub open spec fn oled_frame(n: nat, state: QrAppState, battery: Option<u8>, payload: Seq<char>, fail_reason: Seq<char>) -> Seq<u8> {
    let blank = Seq::new(n, |i: int| 0xFFu8);
    match state {
        QrAppState::Idle => {
            let b = ostr_centered(blank, 64, 28, "ZOOP QR"@, 1, BLACK);
            match battery {
                Some(p) => battery_bar_spec(b, p),
                None => b,
            }
        },
        QrAppState::Aiming => ostr_centered(blank, 64, 28, "Point at QR"@, 1, BLACK),
        QrAppState::Decoded => ohints_spec(
            ostr_centered(blank, 64, 20, ellipsized(payload, 18), 1, BLACK),
            "REC=OK"@,
            "PWR=Retry"@,
        ),
        QrAppState::Fail => {
            let reason = if fail_reason.len() == 0 { "No QR"@ } else { fail_reason };
            ohints_spec(ostr_centered(blank, 64, 20, reason, 1, BLACK), ""@, "PWR=Retry"@)
        },
        QrAppState::Export => ostr_centered(blank, 64, 28, "Sent"@, 1, BLACK),
    }
}

impl OledUiContext<'_> {
    pub fn render(&mut self, state: QrAppState) -> (id: OledScreenId)
        requires
            old(self).buf@.len() >= BYTES,
        ensures
            id == oled_screen_of(state),
            final(self).buf@ == oled_frame(old(self).buf@.len(), state, old(self).battery_pct, old(self).payload@, old(self).fail_reason@),
            final(self).battery_pct == old(self).battery_pct,
            final(self).payload == old(self).payload,
            final(self).fail_reason == old(self).fail_reason,
    {
        clear(self.buf);
        proof {
            reveal_strlit("ZOOP QR");
            reveal_strlit("Point at QR");
            reveal_strlit("REC=OK");
            reveal_strlit("PWR=Retry");
            reveal_strlit("No QR");
            reveal_strlit("Sent");
            reveal_strlit("");
        }
        match state {
            QrAppState::Idle => {
                draw_str_centered(self.buf, (WIDTH / 2) as i32, (HEIGHT as i32 / 2) - 4, "ZOOP QR", 1, BLACK);
                if let Some(pct) = self.battery_pct {
                    draw_battery_bar(self.buf, pct);
                }
                OledScreenId::Idle
            },
            QrAppState::Aiming => {
                draw_str_centered(self.buf, (WIDTH / 2) as i32, (HEIGHT as i32 / 2) - 4, "Point at QR", 1, BLACK);
                OledScreenId::Aiming
            },
            QrAppState::Decoded => {
                let shown = truncate_ellipsis(self.payload, 18);
                draw_str_centered(self.buf, (WIDTH / 2) as i32, 20, shown.as_str(), 1, BLACK);
                draw_hints(self.buf, "REC=OK", "PWR=Retry");
                OledScreenId::Decoded
            },
            QrAppState::Fail => {
                let reason = if self.fail_reason.is_empty() { "No QR" } else { self.fail_reason };
                draw_str_centered(self.buf, (WIDTH / 2) as i32, 20, reason, 1, BLACK);
                draw_hints(self.buf, "", "PWR=Retry");
                OledScreenId::Fail
            },
            QrAppState::Export => {
                draw_str_centered(self.buf, (WIDTH / 2) as i32, (HEIGHT as i32 / 2) - 4, "Sent", 1, BLACK);
                OledScreenId::Export
            },
        }
    }
}

} // verus!
