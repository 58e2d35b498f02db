//! The switch between the three sources of colour: formulas, icons and the
//! countdown.
//!
//! The switch reads no clock. Every call that depends on the time takes it
//! from the caller, in milliseconds since a fixed moment.

use crate::hat::countdown::{countdown_frame, minutes_left, Countdown, CountdownView};
use crate::hat::function::{Formula, FormulaStrings, FormulaText, Function, FunctionView};
use crate::hat::icon::{icon_frame, Icon, IconType, IconView};
use crate::hat::leds::{bytes_of, frame_bytes, frame_hex, hex_of, LEDCriss, LED};
use crate::AdminCommand;
use vstd::prelude::*;

verus! {

/// What the hat shows, and how many formulas wait.
#[derive(Debug, Clone, Copy, PartialEq, Eq, Structural)]
pub struct HatStatus {
    pub command: AdminCommand,
    pub formulas_queue: usize,
}

#[derive(Debug, Clone, Copy, PartialEq, Eq, Structural)]
pub enum HatState {
    Function,
    Icon,
    Countdown,
}

/// What the caller works out for one frame, because it takes real-valued
/// arithmetic.
pub struct Shading {
    /// The levels of the formula that `formula_at` names, one for each LED
    /// that a formula colours, before the ceiling is applied.
    pub levels: Vec<LED>,
    /// How far the swaying icons stand to the right of their places, in
    /// columns.
    pub sway: i64,
    /// The colour of the countdown's alarm.
    pub alarm: LED,
}

/// What a `Switch` stands for.
pub struct SwitchView {
    pub function: FunctionView,
    pub icons: IconView,
    pub countdown: CountdownView,
    pub state: HatState,
    /// Whether a new formula brings the formulas back on.
    pub auto_follow: bool,
}

impl SwitchView {
    pub open spec fn valid(self) -> bool {
        &&& self.function.valid()
        &&& self.icons.grid.valid()
        &&& self.countdown.grid.valid()
    }

    /// The state after a frame was drawn at `now`. Only the source that is
    /// on takes part: the formulas look at their queue, an icon or the
    /// countdown draws on its own LEDs.
    pub open spec fn drawn(self, now: int, levels: Seq<LED>, sway: int, alarm: LED) -> SwitchView {
        match self.state {
            HatState::Function => SwitchView { function: self.function.advanced(now), ..self },
            HatState::Icon => SwitchView {
                icons: IconView {
                    grid: icon_frame(self.icons.grid, self.icons.icon, now, sway),
                    ..self.icons
                },
                ..self
            },
            HatState::Countdown => SwitchView {
                countdown: CountdownView {
                    grid: countdown_frame(
                        self.countdown.grid,
                        self.countdown.end_ms,
                        now,
                        alarm,
                    ),
                    ..self.countdown
                },
                ..self
            },
        }
    }

    /// The frame that is drawn at `now`.
    pub open spec fn frame(self, now: int, levels: Seq<LED>, sway: int, alarm: LED) -> Seq<LED> {
        match self.state {
            HatState::Function => self.function.advanced(now).frame(levels),
            HatState::Icon => icon_frame(self.icons.grid, self.icons.icon, now, sway).leds,
            HatState::Countdown => countdown_frame(
                self.countdown.grid,
                self.countdown.end_ms,
                now,
                alarm,
            ).leds,
        }
    }

    /// What is reported at `now`.
    pub open spec fn status(self, now: int) -> HatStatus {
        HatStatus {
            command: match self.state {
                HatState::Function => AdminCommand::AllowFunction,
                HatState::Icon => AdminCommand::Icon(self.icons.icon),
                HatState::Countdown => AdminCommand::Countdown(
                    minutes_left(self.countdown.end_ms, now) as u128,
                ),
            },
            formulas_queue: self.function.queue.len() as usize,
        }
    }

    /// The state after a formula was handed in.
    pub open spec fn with_formula(self, fs: FormulaText) -> SwitchView {
        SwitchView {
            function: FunctionView { queue: self.function.queue.push(fs), ..self.function },
            state: if self.auto_follow {
                HatState::Function
            } else {
                self.state
            },
            ..self
        }
    }

    /// The state with a countdown of `seconds` started at `now`.
    pub open spec fn counting(self, now: int, seconds: int) -> SwitchView {
        SwitchView {
            countdown: CountdownView { end_ms: now + seconds * 1000, ..self.countdown },
            state: HatState::Countdown,
            ..self
        }
    }

    /// The state with `icon` on.
    pub open spec fn showing(self, icon: IconType) -> SwitchView {
        SwitchView {
            icons: IconView { icon, ..self.icons },
            state: HatState::Icon,
            ..self
        }
    }

    /// The state after `command` was carried out at `now`.
    pub open spec fn commanded(self, now: int, command: AdminCommand) -> SwitchView {
        match command {
            AdminCommand::Countdown(seconds) => self.counting(now, seconds as int),
            AdminCommand::Icon(icon) => self.showing(icon),
            AdminCommand::AllowFunction => SwitchView { state: HatState::Function, ..self },
        }
    }
}

pub struct Switch {
    function: Function,
    icons: Icon,
    countdown: Countdown,
    state: HatState,
    auto_follow: bool,
}

impl View for Switch {
    type V = SwitchView;

    closed spec fn view(&self) -> SwitchView {
        SwitchView {
            function: self.function@,
            icons: self.icons@,
            countdown: self.countdown@,
            state: self.state,
            auto_follow: self.auto_follow,
        }
    }
}

impl Switch {
    pub open spec fn wf(&self) -> bool {
        self@.valid()
    }

    /// What `configured` makes: the formulas are on, with one formula
    /// waiting; the fish is the icon; the countdown has ended.
    pub open spec fn new_spec(
        leds: usize,
        circum: usize,
        time_min: u128,
        time_total: u128,
        auto_follow: bool,
    ) -> SwitchView {
        SwitchView {
            function: Function::new_spec(leds, circum, time_min, time_total),
            icons: IconView { grid: LEDCriss::new_spec(leds, circum), icon: IconType::Fish },
            countdown: CountdownView { end_ms: 0, grid: LEDCriss::new_spec(leds, circum) },
            state: HatState::Function,
            auto_follow,
        }
    }

    /// A hat of `leds` LEDs with `circum` of them in the bottom row. A
    /// formula is shown for a second at least, the formulas that wait share
    /// ten seconds, and a new formula does not change what is on.
    pub fn new(leds: usize, circum: usize) -> (switch: Self)
        requires
            circum >= 1,
            2 * circum - 1 <= usize::MAX,
        ensures
            switch.wf(),
            switch@ == Self::new_spec(leds, circum, 1000, 10000, false),
    {
        Self::configured(leds, circum, 1000, 10000, false)
    }

    /// A hat of `leds` LEDs with `circum` of them in the bottom row, on
    /// which a formula is shown for `time_min` milliseconds at least and the
    /// formulas that wait share `time_total` milliseconds. With
    /// `auto_follow`, a new formula brings the formulas back on.
    pub fn configured(
        leds: usize,
        circum: usize,
        time_min: u128,
        time_total: u128,
        auto_follow: bool,
    ) -> (switch: Self)
        requires
            circum >= 1,
            2 * circum - 1 <= usize::MAX,
        ensures
            switch.wf(),
            switch@ == Self::new_spec(leds, circum, time_min, time_total, auto_follow),
    {
        Switch {
            icons: Icon::new(leds, circum),
            function: Function::new(leds, circum, time_min, time_total),
            countdown: Countdown::new(leds, circum),
            state: HatState::Function,
            auto_follow,
        }
    }

    /// The frame at `now` in hexadecimal digits, six for each LED.
    pub fn get_leds_string(&mut self, now: u128, shading: &Shading) -> (text: String)
        requires
            old(self).wf(),
        ensures
            final(self).wf(),
            final(self)@ == old(self)@.drawn(
                now as int,
                shading.levels@,
                shading.sway as int,
                shading.alarm,
            ),
            text@ == frame_hex(
                old(self)@.frame(now as int, shading.levels@, shading.sway as int, shading.alarm),
                old(self)@.frame(
                    now as int,
                    shading.levels@,
                    shading.sway as int,
                    shading.alarm,
                ).len() as int,
            ),
    {
        let leds = self.get_leds(now, shading);
        hex_of(&leds)
    }

    /// The frame at `now` as bytes, three for each LED: red, green, blue.
    pub fn get_leds_binary(&mut self, now: u128, shading: &Shading) -> (bytes: Vec<u8>)
        requires
            old(self).wf(),
        ensures
            final(self).wf(),
            final(self)@ == old(self)@.drawn(
                now as int,
                shading.levels@,
                shading.sway as int,
                shading.alarm,
            ),
            bytes@ == frame_bytes(
                old(self)@.frame(now as int, shading.levels@, shading.sway as int, shading.alarm),
            ),
    {
        let leds = self.get_leds(now, shading);
        bytes_of(&leds)
    }

    /// What the hat shows at `now`, and how many formulas wait.
    pub fn get_status(&self, now: u128) -> (status: HatStatus)
        ensures
            status == self@.status(now as int),
    {
        HatStatus {
            command: match self.state {
                HatState::Function => AdminCommand::AllowFunction,
                HatState::Icon => AdminCommand::Icon(self.icons.get_icon()),
                HatState::Countdown => AdminCommand::Countdown(self.countdown.get_minutes(now)),
            },
            formulas_queue: self.function.queue_len(),
        }
    }

    /// Puts a formula at the end of the queue. With `auto_follow`, the
    /// formulas come back on.
    pub fn add_formula(&mut self, fs: FormulaStrings)
        ensures
            final(self)@ == old(self)@.with_formula(fs@),
    {
        self.function.add_formula(fs);
        if self.auto_follow {
            self.state = HatState::Function;
        }
    }

    /// Turns `state` on. The queue of formulas and the time for which the
    /// one that is shown has been shown are left as they are: that time runs
    /// on while something else is on.
    pub fn set_state(&mut self, state: HatState)
        ensures
            final(self)@ == (SwitchView { state, ..old(self)@ }),
    {
        self.state = state;
    }

    /// Starts a countdown of `seconds` at `now` and turns it on.
    pub fn start_countdown(&mut self, now: u128, seconds: u128)
        requires
            now + seconds * 1000 <= u128::MAX,
        ensures
            final(self)@ == old(self)@.counting(now as int, seconds as int),
    {
        self.countdown.set_countdown(now + seconds * 1000);
        self.state = HatState::Countdown;
    }

    /// Picks `icon` and turns the icons on.
    pub fn show_icon(&mut self, icon: IconType)
        ensures
            final(self)@ == old(self)@.showing(icon),
    {
        self.icons.set_icon(icon);
        self.state = HatState::Icon;
    }

    /// Carries out `command` at `now`.
    pub fn execute(&mut self, now: u128, command: AdminCommand)
        requires
            command matches AdminCommand::Countdown(seconds) ==> now + seconds * 1000 <= u128::MAX,
        ensures
            final(self)@ == old(self)@.commanded(now as int, command),
    {
        match command {
            AdminCommand::Countdown(seconds) => self.start_countdown(now, seconds),
            AdminCommand::Icon(icon) => self.show_icon(icon),
            AdminCommand::AllowFunction => self.set_state(HatState::Function),
        }
    }

    /// What is on.
    pub fn state(&self) -> (state: HatState)
        ensures
            state == self@.state,
    {
        self.state
    }

    /// The formulas and their queue.
    pub fn function(&self) -> (function: &Function)
        ensures
            function@ == self@.function,
    {
        &self.function
    }

    /// The formula that a frame drawn at `now` shows; `None` where none is
    /// shown by then, or something else is on.
    pub fn formula_at(&self, now: u128) -> (formula: Option<&Formula>)
        ensures
            match formula {
                Some(f) => {
                    &&& self@.state == HatState::Function
                    &&& self@.function.advanced(now as int).current == Some(f@)
                },
                None => self@.state != HatState::Function || self@.function.advanced(
                    now as int,
                ).current is None,
            },
    {
        match self.state {
            HatState::Function => self.function.formula_at(now),
            _ => None,
        }
    }

    /// Draws the frame at `now` and returns the colours of the LEDs.
    ///
    /// Where the formulas are on, they first look at their queue.
    pub fn get_leds(&mut self, now: u128, shading: &Shading) -> (leds: Vec<LED>)
        requires
            old(self).wf(),
        ensures
            final(self).wf(),
            final(self)@ == old(self)@.drawn(
                now as int,
                shading.levels@,
                shading.sway as int,
                shading.alarm,
            ),
            leds@ == old(self)@.frame(
                now as int,
                shading.levels@,
                shading.sway as int,
                shading.alarm,
            ),
    {
        match self.state {
            HatState::Function => {
                self.function.check_formulas(now);
                self.function.get_leds(&shading.levels)
            },
            HatState::Icon => self.icons.get_leds(now, shading.sway),
            HatState::Countdown => self.countdown.get_leds(now, &shading.alarm),
        }
    }
}

/// Turning another source on and the formulas back on leaves the formulas
/// as they were: their queue, the one that is shown, and the moment from
/// which it has been shown. Frames of the other source do not touch them
/// either, so the time of the formula that is shown runs on meanwhile.
pub proof fn lemma_formulas_keep_their_time(
    switch: SwitchView,
    now: int,
    levels: Seq<LED>,
    sway: int,
    alarm: LED,
    icon: IconType,
    seconds: int,
)
    ensures
        switch.showing(icon).function == switch.function,
        switch.counting(now, seconds).function == switch.function,
        switch.state != HatState::Function ==> switch.drawn(now, levels, sway, alarm).function
            == switch.function,
        switch.showing(icon).drawn(now, levels, sway, alarm).commanded(
            now,
            AdminCommand::AllowFunction,
        ).function == switch.function,
        switch.counting(now, seconds).drawn(now, levels, sway, alarm).commanded(
            now,
            AdminCommand::AllowFunction,
        ).function == switch.function,
{
}

} // verus!
