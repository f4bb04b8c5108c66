//! General settings: default pauses, the countdown before playing, and the
//! debug log switch.
use vstd::prelude::*;

verus! {

/// General settings.  `D` is the type of pauses (seconds in the application).
#[derive(Clone, Copy, Debug)]
pub struct GeneralConfig<D> {
    pub default_keys: D,
    pub default_lines: D,
    pub countdown_secs: u64,
    pub logging_enabled: bool,
}

/// The countdown a missing setting defaults to: 3 seconds.
pub fn default_countdown() -> (r: u64)
    ensures
        r == 3,
{
    3
}

impl<D> GeneralConfig<D> {
    /// Settings with these pauses, a 3-second countdown and the log off.
    pub fn with_delays(default_keys: D, default_lines: D) -> (r: GeneralConfig<D>)
        ensures
            r.default_keys == default_keys,
            r.default_lines == default_lines,
            r.countdown_secs == 3,
            !r.logging_enabled,
    {
        GeneralConfig { default_keys, default_lines, countdown_secs: default_countdown(), logging_enabled: false }
    }

    /// Moves the countdown by `delta` seconds, never below one second (the
    /// countdown is read as a signed number first, as a 64-bit cast does).
    pub fn nudge_countdown(&mut self, delta: i64)
        requires
            i64::MIN <= as_signed(old(self).countdown_secs) + delta <= i64::MAX,
        ensures
            final(self).countdown_secs == (if as_signed(old(self).countdown_secs) + delta < 1 {
                1
            } else {
                as_signed(old(self).countdown_secs) + delta
            }),
            final(self).default_keys == old(self).default_keys,
            final(self).default_lines == old(self).default_lines,
            final(self).logging_enabled == old(self).logging_enabled,
    {
        let c = self.countdown_secs;
        let signed = c as i64;
        proof {
            lemma_as_signed(c);
        }
        let next = signed + delta;
        self.countdown_secs = if next < 1 { 1 } else { next as u64 };
    }
}

/// A count read as a signed 64-bit number (two's complement).
pub open spec fn as_signed(c: u64) -> int {
    if c <= i64::MAX {
        c as int
    } else {
        c - 0x1_0000_0000_0000_0000
    }
}

proof fn lemma_as_signed(c: u64)
    ensures
        (c as i64) as int == as_signed(c),
{
    if c <= 0x7fff_ffff_ffff_ffffu64 {
        assert((c as i64) as int == c as int) by (bit_vector)
            requires c <= 0x7fff_ffff_ffff_ffffu64;
    } else {
        assert((c as i64) as int == c as int - 0x1_0000_0000_0000_0000int) by (bit_vector)
            requires c > 0x7fff_ffff_ffff_ffffu64;
    }
}

} // verus!
