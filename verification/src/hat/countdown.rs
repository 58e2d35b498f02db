//! A countdown: the time that is left, written on the LEDs, and an alarm
//! once it is over.

use crate::hat::leds::{Grid, LEDCriss, LED};
use crate::hat::text::{digit_chars, digit_text};
use vstd::prelude::*;
use vstd::string::StringExecFns;

verus! {

/// `n` in decimal digits.
pub open spec fn decimal(n: nat) -> Seq<char>
    decreases n,
{
    if n < 10 {
        seq![digit_chars()[n as int]]
    } else {
        decimal(n / 10).push(digit_chars()[n as int % 10])
    }
}

/// `n` in decimal digits, at least two of them.
pub open spec fn two_digits(n: nat) -> Seq<char> {
    if n < 10 {
        seq!['0'] + decimal(n)
    } else {
        decimal(n)
    }
}

/// A number of seconds as minutes and seconds with a colon between them.
/// Minutes do not turn into hours: they may pass 59.
pub open spec fn clock_text(seconds: nat) -> Seq<char> {
    two_digits(seconds / 60) + seq![':'] + two_digits(seconds % 60)
}

/// What a countdown to `end_ms` leaves on `grid` at `now_ms`, both in
/// milliseconds.
///
/// Until the end, and at the end itself, the time that is left stands in
/// grey on black before a green ground, in whole seconds. After the end all
/// LEDs show `alarm`. Either picture is shown at half its brightness.
pub open spec fn countdown_frame(grid: Grid, end_ms: int, now_ms: int, alarm: LED) -> Grid {
    if now_ms > end_ms {
        grid.filled(alarm).dimmed(1, 2)
    } else {
        let text = clock_text(((end_ms - now_ms) / 1000) as nat);
        grid.filled(LED { red: 0, green: 0x60, blue: 0 }).with_text(
            0,
            text,
            LED { red: 0x80, green: 0x80, blue: 0x80 },
            LED { red: 0, green: 0, blue: 0 },
            text.len() as int,
        ).dimmed(1, 2)
    }
}

/// The whole minutes that are left at `now_ms` until `end_ms`; none once the
/// end has passed.
pub open spec fn minutes_left(end_ms: int, now_ms: int) -> int {
    if now_ms > end_ms {
        0
    } else {
        (end_ms - now_ms) / 60000
    }
}

/// What a `Countdown` stands for: its LEDs and the time at which it ends.
pub struct CountdownView {
    pub end_ms: int,
    pub grid: Grid,
}

pub struct Countdown {
    end_ms: u128,
    leds: LEDCriss,
}

impl View for Countdown {
    type V = CountdownView;

    closed spec fn view(&self) -> CountdownView {
        CountdownView { end_ms: self.end_ms as int, grid: self.leds@ }
    }
}

impl Countdown {
    pub open spec fn wf(&self) -> bool {
        self@.grid.valid()
    }

    pub fn new(total: usize, circum: usize) -> (countdown: Self)
        requires
            circum >= 1,
            2 * circum - 1 <= usize::MAX,
        ensures
            countdown.wf(),
            countdown@.end_ms == 0,
            countdown@.grid == LEDCriss::new_spec(total, circum),
    {
        Self { end_ms: 0, leds: LEDCriss::new(total, circum) }
    }

    pub fn set_countdown(&mut self, end_ms: u128)
        ensures
            final(self)@ == (CountdownView { end_ms: end_ms as int, ..old(self)@ }),
    {
        self.end_ms = end_ms;
    }

    /// The colour of the alarm at its brightest.
    pub fn alarm() -> (led: LED)
        ensures
            led == (LED { red: 0xff, green: 0x80, blue: 0x80 }),
    {
        LED::from_rgb(0xff, 0x80, 0x80)
    }

    /// Draws the countdown as it looks at `now_ms` and returns the colours
    /// of the LEDs.
    ///
    /// `alarm` is the colour of the alarm at this moment.
    pub fn get_leds(&mut self, now_ms: u128, alarm: &LED) -> (leds: Vec<LED>)
        requires
            old(self).wf(),
        ensures
            final(self).wf(),
            final(self)@.end_ms == old(self)@.end_ms,
            final(self)@.grid == countdown_frame(
                old(self)@.grid,
                old(self)@.end_ms,
                now_ms as int,
                *alarm,
            ),
            leds@ == final(self)@.grid.leds,
    {
        if now_ms > self.end_ms {
            self.leds.fill(alarm);
        } else {
            self.leds.fill(&LED::from_rgb(0, 0x60, 0));
            let left: u128 = (self.end_ms - now_ms) / 1000;
            let print = Self::clock(left);
            let on = LED::from_rgb(0x80, 0x80, 0x80);
            let off = LED::black();
            self.leds.set_string(0, print.as_str(), &on, &off);
        }
        self.leds.brightness(1, 2);
        self.leds.frame()
    }

    /// The whole minutes that are left at `now_ms`.
    pub fn get_minutes(&self, now_ms: u128) -> (minutes: u128)
        ensures
            minutes == minutes_left(self@.end_ms, now_ms as int),
    {
        if now_ms > self.end_ms {
            0
        } else {
            (self.end_ms - now_ms) / 60000
        }
    }

    /// `seconds` as minutes and seconds, the way the countdown shows them.
    pub fn clock(seconds: u128) -> (text: String)
        ensures
            text@ == clock_text(seconds as nat),
    {
        let mut text = String::new();
        push_two_digits(&mut text, seconds / 60);
        proof {
            reveal_strlit(":");
        }
        text.append(":");
        push_two_digits(&mut text, seconds % 60);
        assert(text@ =~= clock_text(seconds as nat));
        text
    }
}

/// Appends `n` in decimal digits.
fn push_decimal(text: &mut String, n: u128)
    ensures
        final(text)@ == old(text)@ + decimal(n as nat),
    decreases n,
{
    if n >= 10 {
        push_decimal(text, n / 10);
    }
    text.append(digit_text((n % 10) as u8));
    assert(final(text)@ =~= old(text)@ + decimal(n as nat));
}

/// Appends `n` in decimal digits, at least two of them.
fn push_two_digits(text: &mut String, n: u128)
    ensures
        final(text)@ == old(text)@ + two_digits(n as nat),
{
    if n < 10 {
        proof {
            reveal_strlit("0");
        }
        text.append("0");
    }
    push_decimal(text, n);
    assert(final(text)@ =~= old(text)@ + two_digits(n as nat));
}

} // verus!
