//! Formulas that colour the LEDs, and the queue in which they wait their
//! turn.

use crate::hat::leds::LED;
use crate::hat::number::{is_number, number};
use crate::hat::rpn::{parse, program, runs, Op};
use crate::hat::text::chars_of;
use std::collections::VecDeque;
use vstd::prelude::*;
use vstd::string::StringExecFns;

verus! {

/// What a formula says: one line for each colour channel.
pub struct FormulaText {
    pub red: Seq<char>,
    pub green: Seq<char>,
    pub blue: Seq<char>,
}

/// A formula as it is handed in.
#[derive(Debug)]
pub struct FormulaStrings {
    pub red: String,
    pub green: String,
    pub blue: String,
}

impl View for FormulaStrings {
    type V = FormulaText;

    open spec fn view(&self) -> FormulaText {
        FormulaText { red: self.red@, green: self.green@, blue: self.blue@ }
    }
}

impl FormulaStrings {
    pub fn new(red: String, green: String, blue: String) -> (fs: Self)
        ensures
            fs@ == (FormulaText { red: red@, green: green@, blue: blue@ }),
    {
        Self { red, green, blue }
    }
}

/// The brightest that a formula makes a channel.
pub const CEILING: u8 = 63;

/// A level as a formula shows it: a quarter of it, so that no channel
/// passes the ceiling.
pub open spec fn capped(level: LED) -> LED {
    LED { red: level.red / 4, green: level.green / 4, blue: level.blue / 4 }
}

// Stores one formula
pub struct Formula {
    // The raw formula as received from the frontend.
    // It comes as one string per color.
    red: String,
    green: String,
    blue: String,
}

impl View for Formula {
    type V = FormulaText;

    closed spec fn view(&self) -> FormulaText {
        FormulaText { red: self.red@, green: self.green@, blue: self.blue@ }
    }
}

impl Formula {
    pub fn new(red: String, green: String, blue: String) -> (formula: Self)
        ensures
            formula@ == (FormulaText { red: red@, green: green@, blue: blue@ }),
    {
        // The raw formula is stored as it is; it is read when it is shown.
        Self { red, green, blue }
    }

    /// The line for the red channel.
    pub fn red(&self) -> (line: &str)
        ensures
            line@ == self@.red,
    {
        self.red.as_str()
    }

    /// The line for the green channel.
    pub fn green(&self) -> (line: &str)
        ensures
            line@ == self@.green,
    {
        self.green.as_str()
    }

    /// The line for the blue channel.
    pub fn blue(&self) -> (line: &str)
        ensures
            line@ == self@.blue,
    {
        self.blue.as_str()
    }

    /// The programs for red, green and blue. Each of them runs: no step
    /// finds the stack too short.
    pub fn programs(&self) -> (ops: (Vec<Op>, Vec<Op>, Vec<Op>))
        ensures
            ops.0@ == program(self@.red),
            ops.1@ == program(self@.green),
            ops.2@ == program(self@.blue),
            runs(ops.0@),
            runs(ops.1@),
            runs(ops.2@),
    {
        (parse(self.red.as_str()), parse(self.green.as_str()), parse(self.blue.as_str()))
    }

    /// The colour that a formula shows where its three lines come to the
    /// levels `level`: a quarter of each, which keeps every channel within
    /// the ceiling.
    pub fn cap(level: &LED) -> (led: LED)
        ensures
            led == capped(*level),
            led.red <= CEILING,
            led.green <= CEILING,
            led.blue <= CEILING,
    {
        LED::from_rgb(level.red() / 4, level.green() / 4, level.blue() / 4)
    }

    /// Whether `token` is a numeric literal.
    pub fn is_number(token: &str) -> (b: bool)
        ensures
            b == is_number(token@),
    {
        let word = chars_of(token);
        number(&word)
    }
}

/// What a `Function` stands for.
pub struct FunctionView {
    /// How many LEDs there are.
    pub leds: nat,
    /// The width of the LED wall, in cells.
    pub width: nat,
    /// The height of the LED wall, in full rows.
    pub height: nat,
    /// The formulas that wait, the next one first.
    pub queue: Seq<FormulaText>,
    /// The formula that is shown.
    pub current: Option<FormulaText>,
    /// The least time for which a formula is shown, in milliseconds.
    pub time_min: nat,
    /// The time that the waiting formulas share, in milliseconds.
    pub time_total: nat,
    /// When the formula that is shown came up, in milliseconds.
    pub time_start: nat,
}

/// How long a formula has to have been shown before the next one of `waiting`
/// takes over: the least time, or an equal share of the whole time for each
/// formula that waits, whichever is longer.
pub open spec fn required_elapsed(time_min: nat, time_total: nat, waiting: nat) -> int {
    if time_min >= time_total / waiting {
        time_min as int
    } else {
        time_total as int / waiting as int
    }
}

impl FunctionView {
    pub open spec fn valid(self) -> bool {
        &&& self.width >= 1
        &&& self.width % 2 == 1
        &&& self.height == self.leds / ((self.width + 1) / 2)
    }

    /// Whether it is time at `now` for the next formula. Where none is
    /// shown, it is time as soon as one waits.
    pub open spec fn due(self, now: int) -> bool {
        if self.queue.len() == 0 {
            false
        } else if self.current is None {
            true
        } else {
            now - self.time_start >= required_elapsed(
                self.time_min,
                self.time_total,
                self.queue.len(),
            )
        }
    }

    /// The state after a look at the queue at `now`: where it is time, the
    /// formula that waited longest is shown from `now` on.
    pub open spec fn advanced(self, now: int) -> FunctionView {
        if self.due(now) {
            FunctionView {
                queue: self.queue.skip(1),
                current: Some(self.queue[0]),
                time_start: now as nat,
                ..self
            }
        } else {
            self
        }
    }

    /// For how long the formula that is shown has been shown at `now`; no
    /// time at all where the clock stands before its start.
    pub open spec fn elapsed(self, now: int) -> int {
        if now >= self.time_start {
            now - self.time_start
        } else {
            0
        }
    }

    /// How many LEDs a formula colours: those of the full rows.
    pub open spec fn lit(self) -> int {
        (self.height * self.width + 1) as int / 2
    }

    /// The frame that shows the levels `levels`, one for each LED that a
    /// formula colours, in the order of the LEDs. LEDs without a level are
    /// dark, and all are dark where no formula is shown.
    pub open spec fn frame(self, levels: Seq<LED>) -> Seq<LED> {
        Seq::new(
            self.leds,
            |i: int|
                if self.current is Some && i < self.lit() && i < levels.len() {
                    capped(levels[i])
                } else {
                    LED { red: 0, green: 0, blue: 0 }
                },
        )
    }
}

pub struct Function {
    leds: usize,
    // width of the LED wall
    width: usize,
    // height of the LED wall
    height: usize,
    // Formulas waiting in the queue
    queue: VecDeque<Formula>,
    // The current formula, or None
    current: Option<Formula>,
    // Minimum time a formula is shown, in ms
    time_min: u128,
    // Total time budget divided by the length of the queue, in ms
    time_total: u128,
    // Start of current formula, in ms
    time_start: u128,
}

impl View for Function {
    type V = FunctionView;

    closed spec fn view(&self) -> FunctionView {
        FunctionView {
            leds: self.leds as nat,
            width: self.width as nat,
            height: self.height as nat,
            queue: self.queue@.map_values(|f: Formula| f@),
            current: match self.current {
                Some(f) => Some(f@),
                None => None,
            },
            time_min: self.time_min as nat,
            time_total: self.time_total as nat,
            time_start: self.time_start as nat,
        }
    }
}

impl Function {
    pub open spec fn wf(&self) -> bool {
        self@.valid()
    }

    /// What `new` makes: nothing shown yet, and one formula waiting.
    pub open spec fn new_spec(leds: usize, circum: usize, time_min: u128, time_total: u128)
        -> FunctionView {
        FunctionView {
            leds: leds as nat,
            width: (2 * circum - 1) as nat,
            height: (leds / circum) as nat,
            queue: seq![FormulaText { red: "t sin"@, green: "x"@, blue: "y"@ }],
            current: None,
            time_min: time_min as nat,
            time_total: time_total as nat,
            time_start: 0,
        }
    }

    pub fn new(leds: usize, circum: usize, time_min: u128, time_total: u128) -> (function: Function)
        requires
            circum >= 1,
            2 * circum - 1 <= usize::MAX,
        ensures
            function.wf(),
            function@ == Self::new_spec(leds, circum, time_min, time_total),
    {
        let mut queue: VecDeque<Formula> = VecDeque::new();
        queue.push_back(
            Formula::new(String::from_str("t sin"), String::from_str("x"), String::from_str("y")),
        );
        let function = Function {
            leds,
            width: circum - 1 + circum,
            height: leds / circum,
            queue,
            current: None,
            time_min,
            time_total,
            time_start: 0,
        };
        assert(function@.queue =~= Self::new_spec(leds, circum, time_min, time_total).queue);
        assert((function.width + 1) / 2 == circum);
        function
    }

    /// Puts a formula at the end of the queue.
    pub fn add_formula(&mut self, fs: FormulaStrings)
        ensures
            final(self)@ == (FunctionView { queue: old(self)@.queue.push(fs@), ..old(self)@ }),
    {
        self.queue.push_back(Formula::new(fs.red, fs.green, fs.blue));
        assert(final(self)@.queue =~= old(self)@.queue.push(fs@));
    }

    /// Drops the formulas that wait and the one that is shown.
    pub fn _clear_queue(&mut self)
        ensures
            final(self)@ == (FunctionView {
                queue: Seq::empty(),
                current: None,
                ..old(self)@
            }),
    {
        self.queue.clear();
        self.current = None;
        assert(final(self)@.queue =~= Seq::<FormulaText>::empty());
    }

    /// Whether it is time at `time_ms` for the next formula.
    pub fn due(&self, time_ms: u128) -> (b: bool)
        ensures
            b == self@.due(time_ms as int),
    {
        if self.queue.len() == 0 {
            false
        } else if self.current.is_none() {
            true
        } else if time_ms < self.time_start {
            false
        } else {
            let time_since_start: u128 = time_ms - self.time_start;
            time_since_start >= self.time_min && time_since_start >= self.time_total
                / self.queue.len() as u128
        }
    }

    /// Looks at the queue: where it is time at `time_ms`, the formula that
    /// waited longest is shown from now on.
    pub fn check_formulas(&mut self, time_ms: u128)
        ensures
            final(self)@ == old(self)@.advanced(time_ms as int),
    {
        if self.due(time_ms) {
            // Move to next formula from queue
            if let Some(form) = self.queue.pop_front() {
                self.current = Some(form);
                self.time_start = time_ms;
            }
            assert(final(self)@.queue =~= old(self)@.queue.skip(1));
        }
    }

    /// The formula that is shown after a look at the queue at `time_ms`.
    pub fn formula_at(&self, time_ms: u128) -> (formula: Option<&Formula>)
        ensures
            match formula {
                Some(f) => self@.advanced(time_ms as int).current == Some(f@),
                None => self@.advanced(time_ms as int).current is None,
            },
    {
        if self.due(time_ms) {
            Some(&self.queue[0])
        } else {
            self.current.as_ref()
        }
    }

    /// For how long, in milliseconds, the formula that is shown after a look
    /// at the queue at `time_ms` has been shown by then.
    pub fn elapsed_at(&self, time_ms: u128) -> (elapsed: u128)
        ensures
            elapsed == self@.advanced(time_ms as int).elapsed(time_ms as int),
    {
        if self.due(time_ms) || time_ms < self.time_start {
            0
        } else {
            time_ms - self.time_start
        }
    }

    /// The width and the height of the wall that a formula colours, in cells.
    pub fn range(&self) -> (r: (usize, usize))
        ensures
            r.0 == self@.width,
            r.1 == self@.height,
    {
        (self.width, self.height)
    }

    /// How many LEDs a formula colours.
    pub fn lit(&self) -> (n: usize)
        requires
            self.wf(),
        ensures
            n == self@.lit(),
            n <= self@.leds,
    {
        proof {
            lemma_lit_bound(self@);
        }
        assert(self.height as u128 * self.width as u128 + 1 <= u128::MAX) by (nonlinear_arith)
            requires
                self.height <= 0xffff_ffff_ffff_ffff,
                self.width <= 0xffff_ffff_ffff_ffff,
        ;
        ((self.height as u128 * self.width as u128 + 1) / 2) as usize
    }

    /// The column and the row of the cell that holds the `k`-th of the LEDs
    /// that a formula colours; `None` where there are not so many.
    pub fn cell(&self, k: usize) -> (cell: Option<(usize, usize)>)
        requires
            self.wf(),
        ensures
            match cell {
                Some((x, y)) => {
                    &&& k < self@.lit()
                    &&& x < self@.width
                    &&& y < self@.height
                    &&& (x + y) % 2 == 0
                    &&& y * self@.width + x == 2 * k
                },
                None => k >= self@.lit(),
            },
    {
        if k >= self.lit() {
            return None;
        }
        let place: u128 = 2 * (k as u128);
        let w: u128 = self.width as u128;
        let x: u128 = place % w;
        let y: u128 = place / w;
        proof {
            lemma_cell(self@, k as int);
        }
        Some((x as usize, y as usize))
    }

    /// The frame that shows the levels `levels`: the level of each LED that
    /// a formula colours, in the order of the LEDs, at a quarter of its
    /// brightness. LEDs without a level are dark, and all are dark where no
    /// formula is shown.
    pub fn get_leds(&self, levels: &Vec<LED>) -> (leds: Vec<LED>)
        requires
            self.wf(),
        ensures
            leds@ == self@.frame(levels@),
    {
        // Calculate LEDs
        let mut leds: Vec<LED> = Vec::new();
        let lit: usize = if self.current.is_some() {
            self.lit()
        } else {
            0
        };
        let mut i: usize = 0;
        while i < self.leds
            invariant
                i <= self.leds,
                self.wf(),
                lit == if self@.current is Some {
                    self@.lit()
                } else {
                    0
                },
                leds@ == self@.frame(levels@).take(i as int),
            decreases self.leds - i,
        {
            if i < lit && i < levels.len() {
                leds.push(Formula::cap(&levels[i]));
            } else {
                leds.push(LED::black());
            }
            assert(leds@ =~= self@.frame(levels@).take(i + 1));
            i = i + 1;
        }
        assert(leds@ =~= self@.frame(levels@));
        leds
    }

    pub fn queue_len(&self) -> (n: usize)
        ensures
            n == self@.queue.len(),
    {
        self.queue.len()
    }
}

/// A formula colours no more LEDs than there are.
pub proof fn lemma_lit_bound(f: FunctionView)
    requires
        f.valid(),
    ensures
        0 <= f.lit() <= f.leds,
{
    let c = (f.width as int + 1) / 2;
    let h = f.height as int;
    let w = f.width as int;
    assert(w == 2 * c - 1);
    assert(h * c <= f.leds) by (nonlinear_arith)
        requires
            c >= 1,
            h == f.leds as int / c,
    ;
    assert(h * w == 2 * (h * c) - h) by (nonlinear_arith)
        requires
            w == 2 * c - 1,
    ;
}

/// The `k`-th LED that a formula colours sits in a cell of the wall whose
/// column and row add up to an even number, and the cells before it in the
/// order of the rows hold `k` LEDs.
pub proof fn lemma_cell(f: FunctionView, k: int)
    requires
        f.valid(),
        0 <= k < f.lit(),
    ensures
        0 <= (2 * k) % (f.width as int) < f.width,
        0 <= (2 * k) / (f.width as int) < f.height,
        ((2 * k) % (f.width as int) + (2 * k) / (f.width as int)) % 2 == 0,
        ((2 * k) / (f.width as int)) * f.width + (2 * k) % (f.width as int) == 2 * k,
{
    let w = f.width as int;
    let h = f.height as int;
    let x = (2 * k) % w;
    let y = (2 * k) / w;
    let m = (w - 1) / 2;
    assert(w == 2 * m + 1);
    assert(2 * k == w * y + x && 0 <= x < w) by (nonlinear_arith)
        requires
            w >= 1,
            x == (2 * k) % w,
            y == (2 * k) / w,
    ;
    assert(2 * k < h * w);
    assert(0 <= y < h) by (nonlinear_arith)
        requires
            2 * k == w * y + x,
            0 <= x < w,
            0 <= k,
            2 * k < h * w,
            w >= 1,
    ;
    assert(x + y == 2 * k - 2 * (m * y)) by (nonlinear_arith)
        requires
            2 * k == w * y + x,
            w == 2 * m + 1,
    ;
    assert(y * w == w * y) by (nonlinear_arith);
}

} // verus!
