use vstd::prelude::*;

verus! {

/// One note for the buzzer: its pitch and how long it sounds.
#[derive(Clone, Copy, Debug, PartialEq, Eq, Structural)]
pub struct BuzzerTone {
    pub freq_hz: u32,
    pub duration_ms: u32,
}

/// How long the buzzer stays silent for a tone that has no pitch or no
/// length, in milliseconds.
pub const REST_PAUSE_MS: u32 = 10;

/// What the buzzer does for one queued tone.
#[derive(Clone, Copy, Debug, PartialEq, Eq, Structural)]
pub enum ToneAction {
    /// Silence the output (duty 0) and wait `pause_ms`.
    Rest { pause_ms: u32 },
    /// Set the timer to `freq_hz`, drive the output at `duty`, wait
    /// `duration_ms`, then silence the output.
    Play { freq_hz: u32, duty: u32, duration_ms: u32 },
}

/// The action for `tone` on an output whose full duty is `max_duty`: a tone
/// of frequency or length zero is a short rest; any other tone plays at half
/// duty for its length.
pub fn tone_action(tone: &BuzzerTone, max_duty: u32) -> (action: ToneAction)
    ensures
        action == if tone.freq_hz == 0 || tone.duration_ms == 0 {
            ToneAction::Rest { pause_ms: REST_PAUSE_MS }
        } else {
            ToneAction::Play {
                freq_hz: tone.freq_hz,
                duty: max_duty / 2,
                duration_ms: tone.duration_ms,
            }
        },
{
    if tone.freq_hz == 0 || tone.duration_ms == 0 {
        ToneAction::Rest { pause_ms: REST_PAUSE_MS }
    } else {
        ToneAction::Play { freq_hz: tone.freq_hz, duty: max_duty / 2, duration_ms: tone.duration_ms }
    }
}

} // verus!
