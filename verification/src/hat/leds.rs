//! Colours, and the diagonal grid of LEDs they are written to.

use crate::hat::font::{dot, dot_set, glyph, glyph_rows};
use crate::hat::text::{chars_of, digit_chars, digit_text};
use vstd::arithmetic::div_mod::{
    lemma_fundamental_div_mod, lemma_fundamental_div_mod_converse, lemma_mod_add_multiples_vanish,
    lemma_mod_bound, lemma_small_mod,
};
use vstd::prelude::*;
use vstd::string::StringExecFns;

verus! {

/// One LED's colour: three independent eight-bit channels.
#[derive(Debug, Clone, Copy, PartialEq, Eq, Structural)]
pub struct LED {
    pub red: u8,
    pub green: u8,
    pub blue: u8,
}

/// The sum of two channel values, held at full intensity where it would pass it.
pub open spec fn saturating_sum(a: u8, b: u8) -> u8 {
    if a + b >= 255 {
        255u8
    } else {
        (a + b) as u8
    }
}

/// A channel value multiplied by `numer / denom`, rounded down and held at
/// full intensity.
pub open spec fn scaled_channel(c: u8, numer: int, denom: int) -> u8 {
    if c * numer / denom >= 255 {
        255u8
    } else {
        (c * numer / denom) as u8
    }
}

/// What a hexadecimal digit of either case stands for; `None` for any other
/// character.
pub open spec fn hex_value(c: char) -> Option<int> {
    if '0' <= c <= '9' {
        Some(c as int - '0' as int)
    } else if 'a' <= c <= 'f' {
        Some(c as int - 'a' as int + 10)
    } else if 'A' <= c <= 'F' {
        Some(c as int - 'A' as int + 10)
    } else {
        None
    }
}

/// Whether `s` is six hexadecimal digits.
pub open spec fn is_hex_triple(s: Seq<char>) -> bool {
    s.len() == 6 && forall|i: int| 0 <= i < 6 ==> (#[trigger] hex_value(s[i])) is Some
}

/// The byte that the two digits at `i` and `i + 1` of `s` spell.
pub open spec fn hex_byte(s: Seq<char>, i: int) -> u8 {
    (hex_value(s[i])->0 * 16 + hex_value(s[i + 1])->0) as u8
}

/// The colour that `s` spells. Six hexadecimal digits give red, green and
/// blue, two digits each; anything else gives white.
pub open spec fn hex_color(s: Seq<char>) -> LED {
    if is_hex_triple(s) {
        LED { red: hex_byte(s, 0), green: hex_byte(s, 2), blue: hex_byte(s, 4) }
    } else {
        LED { red: 255, green: 255, blue: 255 }
    }
}

/// A byte as two lower-case hexadecimal digits.
pub open spec fn byte_hex(b: u8) -> Seq<char> {
    seq![digit_chars()[b as int / 16], digit_chars()[b as int % 16]]
}

/// A colour as six lower-case hexadecimal digits: red, green, blue.
pub open spec fn hex_string(c: LED) -> Seq<char> {
    byte_hex(c.red) + byte_hex(c.green) + byte_hex(c.blue)
}

/// The colour of a point on the hue wheel. The wheel has three sectors of 64
/// steps, each fading one channel out and the next one in; the last quarter
/// of the range is white.
pub open spec fn hue_color(hue: u8) -> LED {
    let step = hue as int % 64;
    let falling = (255 - 2 * step) as u8;
    let rising = (128 + 2 * step) as u8;
    if hue / 64 == 0 {
        LED { red: falling, green: rising, blue: 64 }
    } else if hue / 64 == 1 {
        LED { red: 64, green: falling, blue: rising }
    } else if hue / 64 == 2 {
        LED { red: rising, green: 64, blue: falling }
    } else {
        LED { red: 255, green: 255, blue: 255 }
    }
}

/// The channel-wise sums of the first `n` colours of `leds`.
pub open spec fn channel_sums(leds: Seq<LED>, n: int) -> (int, int, int)
    decreases n,
{
    if n <= 0 {
        (0, 0, 0)
    } else {
        let (r, g, b) = channel_sums(leds, n - 1);
        (r + leds[n - 1].red, g + leds[n - 1].green, b + leds[n - 1].blue)
    }
}

impl LED {
    /// This colour with `other` added, channel by channel, without wrapping.
    pub open spec fn plus(self, other: LED) -> LED {
        LED {
            red: saturating_sum(self.red, other.red),
            green: saturating_sum(self.green, other.green),
            blue: saturating_sum(self.blue, other.blue),
        }
    }

    /// This colour with each channel multiplied by `numer / denom`.
    pub open spec fn scaled(self, numer: int, denom: int) -> LED {
        LED {
            red: scaled_channel(self.red, numer, denom),
            green: scaled_channel(self.green, numer, denom),
            blue: scaled_channel(self.blue, numer, denom),
        }
    }

    pub fn white() -> (c: LED)
        ensures
            c == (LED { red: 255, green: 255, blue: 255 }),
    {
        LED { red: 0xff, green: 0xff, blue: 0xff }
    }

    pub fn black() -> (c: LED)
        ensures
            c == (LED { red: 0, green: 0, blue: 0 }),
    {
        LED { red: 0, green: 0, blue: 0 }
    }

    /// Adds `other` to this colour. A channel that would pass 255 stays at 255.
    pub fn add(&mut self, other: &LED)
        ensures
            *final(self) == old(self).plus(*other),
    {
        self.red = Self::saturate(self.red, other.red);
        self.green = Self::saturate(self.green, other.green);
        self.blue = Self::saturate(self.blue, other.blue);
    }

    fn saturate(a: u8, b: u8) -> (sum: u8)
        ensures
            sum == saturating_sum(a, b),
    {
        if a < 0xff - b {
            a + b
        } else {
            0xff
        }
    }

    pub fn from_rgb(red: u8, green: u8, blue: u8) -> (c: LED)
        ensures
            c == (LED { red, green, blue }),
    {
        LED { red, green, blue }
    }

    pub fn red(&self) -> (v: u8)
        ensures
            v == self.red,
    {
        self.red
    }

    pub fn green(&self) -> (v: u8)
        ensures
            v == self.green,
    {
        self.green
    }

    pub fn blue(&self) -> (v: u8)
        ensures
            v == self.blue,
    {
        self.blue
    }

    pub fn from_hue(hue: u8) -> (c: LED)
        ensures
            c == hue_color(hue),
    {
        let bright: u8 = hue % 64;
        let sector: u8 = hue / 64;
        let one: u8 = 255 - bright * 2;
        let two: u8 = 128 + bright * 2;
        if sector == 0 {
            LED { red: one, green: two, blue: 64 }
        } else if sector == 1 {
            LED { red: 64, green: one, blue: two }
        } else if sector == 2 {
            LED { red: two, green: 64, blue: one }
        } else {
            LED::white()
        }
    }

    /// Reads a colour from six hexadecimal digits.
    ///
    /// Anything else is not reported: text of another length, or with a
    /// character that is no hexadecimal digit, reads as white.
    pub fn from_hex(hex: &str) -> (c: LED)
        ensures
            c == hex_color(hex@),
    {
        let digits = chars_of(hex);
        if digits.len() != 6 {
            return LED::white();
        }
        match (hex_pair(&digits, 0), hex_pair(&digits, 2), hex_pair(&digits, 4)) {
            (Some(red), Some(green), Some(blue)) => LED { red, green, blue },
            _ => LED::white(),
        }
    }

    pub fn is_black(&self) -> (b: bool)
        ensures
            b == (*self == LED { red: 0, green: 0, blue: 0 }),
    {
        self.red == 0 && self.green == 0 && self.blue == 0
    }

    /// This colour at `numer / denom` of its brightness. Each channel is
    /// rounded down and stays within 0 to 255.
    pub fn brightness(&self, numer: u32, denom: u32) -> (c: LED)
        requires
            denom > 0,
        ensures
            c == self.scaled(numer as int, denom as int),
    {
        LED {
            red: Self::calc_bright(self.red, numer, denom),
            green: Self::calc_bright(self.green, numer, denom),
            blue: Self::calc_bright(self.blue, numer, denom),
        }
    }

    /// The channel-wise average of this colour and `others`, rounded down.
    pub fn mean(&self, others: Vec<Self>) -> (c: LED)
        ensures
            c.red == (self.red + channel_sums(others@, others@.len() as int).0) / (others@.len()
                + 1) as int,
            c.green == (self.green + channel_sums(others@, others@.len() as int).1) / (
            others@.len() + 1) as int,
            c.blue == (self.blue + channel_sums(others@, others@.len() as int).2) / (others@.len()
                + 1) as int,
    {
        let mut red: u128 = self.red as u128;
        let mut green: u128 = self.green as u128;
        let mut blue: u128 = self.blue as u128;
        let n: usize = others.len();
        let mut i: usize = 0;
        while i < n
            invariant
                i <= n,
                n == others@.len(),
                red == self.red + channel_sums(others@, i as int).0,
                green == self.green + channel_sums(others@, i as int).1,
                blue == self.blue + channel_sums(others@, i as int).2,
                red <= 255 * (i + 1),
                green <= 255 * (i + 1),
                blue <= 255 * (i + 1),
            decreases n - i,
        {
            red = red + others[i].red as u128;
            green = green + others[i].green as u128;
            blue = blue + others[i].blue as u128;
            i = i + 1;
        }
        let s: u128 = n as u128 + 1;
        assert(red / s <= 255 && green / s <= 255 && blue / s <= 255) by (nonlinear_arith)
            requires
                s > 0,
                red <= 255 * s,
                green <= 255 * s,
                blue <= 255 * s,
        ;
        LED { red: (red / s) as u8, green: (green / s) as u8, blue: (blue / s) as u8 }
    }

    /// The colour as six lower-case hexadecimal digits: red, green, blue.
    pub fn to_string(&self) -> (s: String)
        ensures
            s@ == hex_string(*self),
    {
        let mut s = String::new();
        s.append(digit_text(self.red / 16));
        s.append(digit_text(self.red % 16));
        s.append(digit_text(self.green / 16));
        s.append(digit_text(self.green % 16));
        s.append(digit_text(self.blue / 16));
        s.append(digit_text(self.blue % 16));
        assert(s@ =~= hex_string(*self));
        s
    }

    pub fn xor(&mut self, other: LED)
        ensures
            final(self).red == old(self).red ^ other.red,
            final(self).green == old(self).green ^ other.green,
            final(self).blue == old(self).blue ^ other.blue,
    {
        self.red = self.red ^ other.red;
        self.green = self.green ^ other.green;
        self.blue = self.blue ^ other.blue;
    }

    fn calc_bright(c: u8, numer: u32, denom: u32) -> (v: u8)
        requires
            denom > 0,
        ensures
            v == scaled_channel(c, numer as int, denom as int),
    {
        assert(c as u64 * numer as u64 <= 255 * 0xffff_ffff) by (nonlinear_arith)
            requires
                c <= 255,
                numer <= 0xffff_ffff,
        ;
        let res: u64 = c as u64 * numer as u64 / denom as u64;
        if res > 255 {
            255
        } else {
            res as u8
        }
    }
}

/// What the hexadecimal digit `c` stands for.
fn hex_digit_value(c: char) -> (v: Option<u8>)
    ensures
        match v {
            Some(d) => d < 16 && hex_value(c) == Some(d as int),
            None => hex_value(c) is None,
        },
{
    if '0' <= c && c <= '9' {
        Some((c as u32 - '0' as u32) as u8)
    } else if 'a' <= c && c <= 'f' {
        Some((c as u32 - 'a' as u32 + 10) as u8)
    } else if 'A' <= c && c <= 'F' {
        Some((c as u32 - 'A' as u32 + 10) as u8)
    } else {
        None
    }
}

/// The byte that the two digits at `i` and `i + 1` spell, if both are
/// hexadecimal digits.
fn hex_pair(digits: &Vec<char>, i: usize) -> (byte: Option<u8>)
    requires
        i + 1 < digits.len(),
    ensures
        match byte {
            Some(b) => {
                &&& hex_value(digits@[i as int]) is Some
                &&& hex_value(digits@[i + 1]) is Some
                &&& b == hex_byte(digits@, i as int)
            },
            None => hex_value(digits@[i as int]) is None || hex_value(digits@[i + 1]) is None,
        },
{
    match (hex_digit_value(digits[i]), hex_digit_value(digits[i + 1])) {
        (Some(high), Some(low)) => Some(high * 16 + low),
        _ => None,
    }
}

/// Writing a colour out and reading it back gives the same colour.
pub proof fn lemma_hex_round_trip(c: LED)
    ensures
        hex_color(hex_string(c)) == c,
{
    lemma_byte_round_trip(c.red);
    lemma_byte_round_trip(c.green);
    lemma_byte_round_trip(c.blue);
    let s = hex_string(c);
    assert(s.len() == 6);
    assert(s[0] == byte_hex(c.red)[0] && s[1] == byte_hex(c.red)[1]);
    assert(s[2] == byte_hex(c.green)[0] && s[3] == byte_hex(c.green)[1]);
    assert(s[4] == byte_hex(c.blue)[0] && s[5] == byte_hex(c.blue)[1]);
    assert(is_hex_triple(s));
}

/// The two digits of a byte are hexadecimal digits, and spell that byte.
proof fn lemma_byte_round_trip(b: u8)
    ensures
        hex_value(byte_hex(b)[0]) == Some(b as int / 16),
        hex_value(byte_hex(b)[1]) == Some(b as int % 16),
{
    lemma_digit_round_trip(b as int / 16);
    lemma_digit_round_trip(b as int % 16);
}

/// Each of the sixteen digits stands for its own position.
proof fn lemma_digit_round_trip(n: int)
    requires
        0 <= n < 16,
    ensures
        hex_value(digit_chars()[n]) == Some(n),
{
}


/// How many rows a strip of `total` LEDs makes with `circum` of them in the
/// bottom row: `total / circum`, rounded up.
pub open spec fn rows_of(total: int, circum: int) -> int {
    if total % circum == 0 {
        total / circum
    } else {
        total / circum + 1
    }
}

/// A value held between 0 and 255.
pub open spec fn clip(v: int) -> u8 {
    if v >= 255 {
        255u8
    } else if v <= 0 {
        0u8
    } else {
        v as u8
    }
}

/// The LEDs as a rectangle of cells, `width` by `height`, of which every
/// second one holds an LED: the cells whose column and row add up to an even
/// number. The LEDs are numbered along the rows, bottom row first. The
/// rectangle is the surface of a cylinder: columns are counted modulo `width`.
pub struct Grid {
    pub width: int,
    pub height: int,
    pub leds: Seq<LED>,
}

impl Grid {
    pub open spec fn valid(self) -> bool {
        &&& self.width >= 1
        &&& self.width % 2 == 1
        &&& self.height == rows_of(self.leds.len() as int, (self.width + 1) / 2)
    }

    /// The number of the LED in the cell at column `x` and row `y`, or `None`
    /// where that cell holds none: in a gap of the pattern, above or below
    /// the rows, or past the last LED.
    pub open spec fn slot(self, x: int, y: int) -> Option<int> {
        let column = x % self.width;
        let place = y * self.width + column;
        if 0 <= y < self.height && (column + y) % 2 == 0 && place / 2 < self.leds.len() {
            Some(place / 2)
        } else {
            None
        }
    }

    /// The grid with the LED at column `x` and row `y` set to `led`;
    /// unchanged where that cell holds no LED.
    pub open spec fn written(self, x: int, y: int, led: LED) -> Grid {
        match self.slot(x, y) {
            Some(i) => Grid { leds: self.leds.update(i, led), ..self },
            None => self,
        }
    }

    /// The grid with every LED set to `led`.
    pub open spec fn filled(self, led: LED) -> Grid {
        Grid { leds: Seq::new(self.leds.len(), |i: int| led), ..self }
    }

    /// The grid with every LED at `numer / denom` of its brightness.
    pub open spec fn dimmed(self, numer: int, denom: int) -> Grid {
        Grid {
            leds: Seq::new(self.leds.len(), |i: int| self.leds[i].scaled(numer, denom)),
            ..self
        }
    }

    /// The cell that the `k`-th of sixteen lights around (`ix`, `iy`) falls
    /// on. The lights cover four columns from `ix - 1` and four rows from
    /// `iy - 1`, column by column.
    pub open spec fn light_cell(ix: int, iy: int, k: int) -> (int, int) {
        (ix + k / 4 - 1, iy + k % 4 - 1)
    }

    /// What the LED numbered `i` receives from the first `n` of the lights
    /// around (`ix`, `iy`): the sum, channel by channel, of those that fall
    /// on it.
    pub open spec fn gain(self, ix: int, iy: int, lights: Seq<LED>, i: int, n: int) -> (
        int,
        int,
        int,
    )
        decreases n,
    {
        if n <= 0 {
            (0, 0, 0)
        } else {
            let (r, g, b) = self.gain(ix, iy, lights, i, n - 1);
            let (x, y) = Self::light_cell(ix, iy, n - 1);
            if self.slot(x, y) == Some(i) {
                (r + lights[n - 1].red, g + lights[n - 1].green, b + lights[n - 1].blue)
            } else {
                (r, g, b)
            }
        }
    }

    /// The grid with the first `n` of the lights around (`ix`, `iy`) added:
    /// each LED gains what falls on it, and stays within 0 to 255.
    pub open spec fn lit(self, ix: int, iy: int, lights: Seq<LED>, n: int) -> Grid {
        Grid {
            leds: Seq::new(
                self.leds.len(),
                |i: int| self.leds[i].gained(self.gain(ix, iy, lights, i, n)),
            ),
            ..self
        }
    }

    /// The colour of the `k`-th dot of a character: `on` where the dot is
    /// set, `off` where it is clear. The dots are counted along the rows,
    /// bottom row first, eight to a row.
    pub open spec fn dot_led(rows: Seq<u8>, on: LED, off: LED, k: int) -> LED {
        if dot(rows[7 - k / 8], (k % 8) as u8) {
            on
        } else {
            off
        }
    }

    /// The number of the LED on which the `k`-th dot of a character at
    /// column `x` falls, if it falls on one.
    pub open spec fn dot_slot(self, x: int, k: int) -> Option<int> {
        self.slot(x + k % 8, k / 8)
    }

    /// The grid with the first `n` dots of a character written at column
    /// `x`, rows 0 to 7.
    pub open spec fn with_dots(self, x: int, rows: Seq<u8>, on: LED, off: LED, n: int) -> Grid
        decreases n,
    {
        if n <= 0 {
            self
        } else {
            self.with_dots(x, rows, on, off, n - 1).written(
                x + (n - 1) % 8,
                (n - 1) / 8,
                Self::dot_led(rows, on, off, n - 1),
            )
        }
    }

    /// The grid with the character `c` written at column `x`; unchanged
    /// where the font has no such character.
    pub open spec fn with_char(self, x: int, c: char, on: LED, off: LED) -> Grid {
        match glyph(c) {
            Some(rows) => self.with_dots(x, rows, on, off, 64),
            None => self,
        }
    }

    /// The grid with the first `n` characters of `text` written from column
    /// `x` on, each eight columns wide. A character that the font lacks
    /// leaves its eight columns as they are.
    pub open spec fn with_text(self, x: int, text: Seq<char>, on: LED, off: LED, n: int) -> Grid
        decreases n,
    {
        if n <= 0 {
            self
        } else {
            self.with_text(x, text, on, off, n - 1).with_char(
                x + 8 * (n - 1),
                text[n - 1],
                on,
                off,
            )
        }
    }
}

impl LED {
    /// This colour with `gain` added, channel by channel, without wrapping.
    pub open spec fn gained(self, gain: (int, int, int)) -> LED {
        LED {
            red: clip(self.red + gain.0),
            green: clip(self.green + gain.1),
            blue: clip(self.blue + gain.2),
        }
    }
}

/// Handles diagonal LED arrangements, like this:
///
/// ```text
/// X  .  X  .  X
/// .  X  .  X  .
/// X  .  X  .  X
/// ```
///
/// The LEDs wind around the hat from bottom to top.
pub struct LEDCriss {
    // The available range as (width, height), where only half
    // of the cells are populated.
    range: (usize, usize),
    // One colour for each LED, in the order in which they are wired.
    leds: Vec<LED>,
}

impl View for LEDCriss {
    type V = Grid;

    closed spec fn view(&self) -> Grid {
        Grid { width: self.range.0 as int, height: self.range.1 as int, leds: self.leds@ }
    }
}

impl LEDCriss {
    pub open spec fn wf(&self) -> bool {
        self@.valid()
    }

    /// What `new` makes of `total` LEDs with `circum` of them in the bottom
    /// row: a dark grid `2 * circum - 1` cells wide.
    pub open spec fn new_spec(total: usize, circum: usize) -> Grid {
        Grid {
            width: 2 * circum - 1,
            height: rows_of(total as int, circum as int),
            leds: Seq::new(total as nat, |i: int| LED { red: 0, green: 0, blue: 0 }),
        }
    }

    /// A dark grid of `total` LEDs, with `circum` of them in the bottom row.
    pub fn new(total: usize, circum: usize) -> (grid: Self)
        requires
            circum >= 1,
            2 * circum - 1 <= usize::MAX,
        ensures
            grid.wf(),
            grid@ == Self::new_spec(total, circum),
    {
        let width: usize = circum - 1 + circum;
        let height: usize = if total % circum == 0 {
            total / circum
        } else {
            assert(total / circum < total) by (nonlinear_arith)
                requires
                    circum >= 1,
                    total % circum != 0,
            ;
            total / circum + 1
        };
        let grid = LEDCriss { range: (width, height), leds: uniform(total, LED::black()) };
        assert((width + 1) / 2 == circum);
        grid
    }

    /// The width and the height of the grid, in cells.
    pub fn range(&self) -> (r: (usize, usize))
        ensures
            r.0 == self@.width,
            r.1 == self@.height,
    {
        self.range
    }

    /// The colours of the LEDs, in the order in which they are wired.
    pub fn leds(&self) -> (leds: &Vec<LED>)
        ensures
            leds@ == self@.leds,
    {
        &self.leds
    }

    /// A copy of the colours of the LEDs.
    pub fn frame(&self) -> (leds: Vec<LED>)
        ensures
            leds@ == self@.leds,
    {
        let mut leds: Vec<LED> = Vec::new();
        let mut i: usize = 0;
        while i < self.leds.len()
            invariant
                i <= self.leds.len(),
                leds@ == self.leds@.take(i as int),
            decreases self.leds.len() - i,
        {
            leds.push(self.leds[i]);
            i = i + 1;
        }
        leds
    }

    /// Turns every LED off.
    pub fn clear(&mut self)
        requires
            old(self).wf(),
        ensures
            final(self).wf(),
            final(self)@ == old(self)@.filled(LED { red: 0, green: 0, blue: 0 }),
    {
        self.fill(&LED::black());
    }

    /// Sets every LED to `led`.
    pub fn fill(&mut self, led: &LED)
        requires
            old(self).wf(),
        ensures
            final(self).wf(),
            final(self)@ == old(self)@.filled(*led),
    {
        self.leds = uniform(self.leds.len(), *led);
    }

    /// Sets the LED at column `x` and row `y` to `led`. Columns wrap around
    /// the hat. Nothing happens where the cell holds no LED.
    pub fn set_exact(&mut self, x: i64, y: i64, led: &LED)
        requires
            old(self).wf(),
        ensures
            final(self).wf(),
            final(self)@ == old(self)@.written(x as int, y as int, *led),
    {
        self.write(x as i128, y as i128, led);
    }

    /// As `set_exact`, for cells further out than it can name.
    pub(crate) fn write(&mut self, x: i128, y: i128, led: &LED)
        requires
            old(self).wf(),
        ensures
            final(self).wf(),
            final(self)@ == old(self)@.written(x as int, y as int, *led),
    {
        match self.slot_of(x, y) {
            Some(i) => {
                self.leds.set(i, *led);
            },
            None => {},
        }
    }

    /// Adds sixteen lights to the LEDs around column `ix` and row `iy`.
    ///
    /// The lights cover the four columns from `ix - 1` and the four rows from
    /// `iy - 1`; `lights[4 * c + r]` falls on column `ix - 1 + c` and row
    /// `iy - 1 + r`. Columns wrap around the hat. A light that falls on a
    /// cell without an LED is lost. An LED adds what falls on it to its
    /// colour, and no channel passes 255.
    pub fn set(&mut self, ix: i64, iy: i64, lights: &[LED; 16])
        requires
            old(self).wf(),
        ensures
            final(self).wf(),
            final(self)@ == old(self)@.lit(ix as int, iy as int, lights@, 16),
    {
        let ghost before = self@;
        let mut k: usize = 0;
        assert(self@.leds =~= before.lit(ix as int, iy as int, lights@, 0).leds);
        while k < 16
            invariant
                k <= 16,
                self.wf(),
                before.valid(),
                self@ == before.lit(ix as int, iy as int, lights@, k as int),
            decreases 16 - k,
        {
            let x: i128 = ix as i128 + (k / 4) as i128 - 1;
            let y: i128 = iy as i128 + (k % 4) as i128 - 1;
            let ghost now = self@;
            let ghost hit = before.slot(x as int, y as int);
            proof {
                lemma_slot_of_same_shape(before, now, x as int, y as int);
                assert(Grid::light_cell(ix as int, iy as int, k as int) == (x as int, y as int));
            }
            match self.slot_of(x, y) {
                Some(i) => {
                    let mut led = self.leds[i];
                    led.add(&lights[k]);
                    self.leds.set(i, led);
                },
                None => {},
            }
            proof {
                let after = before.lit(ix as int, iy as int, lights@, k + 1);
                assert forall|i: int| 0 <= i < before.leds.len() implies self@.leds[i]
                    == after.leds[i] by {
                    let g = before.gain(ix as int, iy as int, lights@, i, k as int);
                    lemma_gain_nonnegative(before, ix as int, iy as int, lights@, i, k as int);
                    assert(now.leds[i] == before.leds[i].gained(g));
                    if hit == Some(i) {
                        lemma_gained_plus(before.leds[i], g, lights@[k as int]);
                    }
                }
                assert(self@.leds =~= after.leds);
            }
            k = k + 1;
        }
    }

    /// Sets every LED to `numer / denom` of its brightness.
    pub fn brightness(&mut self, numer: u32, denom: u32)
        requires
            old(self).wf(),
            denom > 0,
        ensures
            final(self).wf(),
            final(self)@ == old(self)@.dimmed(numer as int, denom as int),
    {
        let ghost before = self@;
        let n: usize = self.leds.len();
        let mut i: usize = 0;
        while i < n
            invariant
                i <= n,
                n == before.leds.len(),
                denom > 0,
                self@.width == before.width,
                self@.height == before.height,
                self@.leds.len() == n,
                forall|j: int|
                    0 <= j < i ==> self@.leds[j] == before.leds[j].scaled(
                        numer as int,
                        denom as int,
                    ),
                forall|j: int| i <= j < n ==> self@.leds[j] == before.leds[j],
            decreases n - i,
        {
            let led = self.leds[i].brightness(numer, denom);
            self.leds.set(i, led);
            i = i + 1;
        }
        assert(self@.leds =~= before.dimmed(numer as int, denom as int).leds);
    }

    /// Writes the character `c` at column `x`, on rows 0 to 7: its set dots
    /// in `on`, its clear dots in `off`. A character that is neither a digit
    /// nor a colon is passed over.
    pub fn set_char(&mut self, x: i64, c: char, on: &LED, off: &LED)
        requires
            old(self).wf(),
        ensures
            final(self).wf(),
            final(self)@ == old(self)@.with_char(x as int, c, *on, *off),
    {
        self.write_char(x as i128, c, on, off);
    }

    fn write_char(&mut self, x: i128, c: char, on: &LED, off: &LED)
        requires
            old(self).wf(),
            -0x1_0000_0000_0000_0000_0000 <= x <= 0x1_0000_0000_0000_0000_0000,
        ensures
            final(self).wf(),
            final(self)@ == old(self)@.with_char(x as int, c, *on, *off),
    {
        let ghost before = self@;
        match glyph_rows(c) {
            Some(rows) => {
                let mut n: u8 = 0;
                while n < 64
                    invariant
                        n <= 64,
                        self.wf(),
                        -0x1_0000_0000_0000_0000_0000 <= x <= 0x1_0000_0000_0000_0000_0000,
                        self@ == before.with_dots(x as int, rows@, *on, *off, n as int),
                    decreases 64 - n,
                {
                    let col: u8 = n % 8;
                    let y: u8 = n / 8;
                    let led = if dot_set(rows[(7 - y) as usize], col) {
                        on
                    } else {
                        off
                    };
                    self.write(x + col as i128, y as i128, led);
                    n = n + 1;
                }
            },
            None => {},
        }
    }

    /// Writes `text` from column `x` on, each character eight columns wide,
    /// on rows 0 to 7. A character that is neither a digit nor a colon
    /// leaves its eight columns as they are.
    pub fn set_string(&mut self, x: i64, text: &str, on: &LED, off: &LED)
        requires
            old(self).wf(),
        ensures
            final(self).wf(),
            final(self)@ == old(self)@.with_text(x as int, text@, *on, *off, text@.len() as int),
    {
        let ghost before = self@;
        let chars = chars_of(text);
        let mut n: usize = 0;
        while n < chars.len()
            invariant
                n <= chars.len(),
                chars@ == text@,
                self.wf(),
                self@ == before.with_text(x as int, text@, *on, *off, n as int),
            decreases chars.len() - n,
        {
            self.write_char(x as i128 + 8 * (n as i128), chars[n], on, off);
            n = n + 1;
        }
    }

    /// The number of the LED in the cell at column `x` and row `y`.
    fn slot_of(&self, x: i128, y: i128) -> (slot: Option<usize>)
        requires
            self.wf(),
        ensures
            match slot {
                Some(i) => self@.slot(x as int, y as int) == Some(i as int),
                None => self@.slot(x as int, y as int) is None,
            },
    {
        if y < 0 || y >= self.range.1 as i128 {
            return None;
        }
        let row: usize = y as usize;
        let column: usize = wrap(x, self.range.0);
        if column % 2 != row % 2 {
            return None;
        }
        assert(row as u128 * self.range.0 as u128 + column as u128 <= u128::MAX)
            by (nonlinear_arith)
            requires
                row <= 0xffff_ffff_ffff_ffff,
                self.range.0 <= 0xffff_ffff_ffff_ffff,
                column <= 0xffff_ffff_ffff_ffff,
        ;
        let place: u128 = row as u128 * self.range.0 as u128 + column as u128;
        if place / 2 < self.leds.len() as u128 {
            Some((place / 2) as usize)
        } else {
            None
        }
    }
}

/// `x` modulo `width`: the column of the hat that column `x` is.
fn wrap(x: i128, width: usize) -> (column: usize)
    requires
        width >= 1,
    ensures
        column == x as int % width as int,
{
    let w: u128 = width as u128;
    if x >= 0 {
        ((x as u128) % w) as usize
    } else {
        let back: u128 = (-(x + 1)) as u128;
        let m: u128 = back % w;
        proof {
            let q = back as int / w as int;
            lemma_fundamental_div_mod(back as int, w as int);
            assert(x as int == (-q - 1) * w + (w - 1 - m)) by (nonlinear_arith)
                requires
                    back as int == w * q + m,
                    x as int == -(back as int) - 1,
            ;
            lemma_fundamental_div_mod_converse(x as int, w as int, -q - 1, w as int - 1 - m as int);
        }
        (w - 1 - m) as usize
    }
}

/// `n` LEDs of the colour `led`.
fn uniform(n: usize, led: LED) -> (leds: Vec<LED>)
    ensures
        leds@ == Seq::new(n as nat, |i: int| led),
{
    let mut leds: Vec<LED> = Vec::new();
    let mut i: usize = 0;
    while i < n
        invariant
            i <= n,
            leds@ == Seq::new(i as nat, |j: int| led),
        decreases n - i,
    {
        leds.push(led);
        i = i + 1;
    }
    leds
}

/// Which LED a cell holds depends on the shape of the grid alone, not on the
/// colours.
pub proof fn lemma_slot_of_same_shape(a: Grid, b: Grid, x: int, y: int)
    requires
        a.width == b.width,
        a.height == b.height,
        a.leds.len() == b.leds.len(),
    ensures
        a.slot(x, y) == b.slot(x, y),
{
}

/// Adding a light to an LED that has gained `gain` is gaining that much more.
proof fn lemma_gained_plus(led: LED, gain: (int, int, int), light: LED)
    requires
        gain.0 >= 0,
        gain.1 >= 0,
        gain.2 >= 0,
    ensures
        led.gained(gain).plus(light) == led.gained(
            (gain.0 + light.red, gain.1 + light.green, gain.2 + light.blue),
        ),
{
}

/// No LED gains less than nothing.
pub proof fn lemma_gain_nonnegative(grid: Grid, ix: int, iy: int, lights: Seq<LED>, i: int, n: int)
    ensures
        grid.gain(ix, iy, lights, i, n).0 >= 0,
        grid.gain(ix, iy, lights, i, n).1 >= 0,
        grid.gain(ix, iy, lights, i, n).2 >= 0,
    decreases n,
{
    if n > 0 {
        lemma_gain_nonnegative(grid, ix, iy, lights, i, n - 1);
    }
}

/// The hat is round: a cell one full turn further on is the same cell.
pub proof fn lemma_slot_wraps(grid: Grid, x: int, y: int)
    requires
        grid.valid(),
    ensures
        grid.slot(x + grid.width, y) == grid.slot(x, y),
{
    lemma_mod_add_multiples_vanish(x, grid.width);
}

/// No two cells of the hat hold the same LED: where a cell holds the LED of
/// another, the two lie in the same row and are the same column of the hat.
pub proof fn lemma_slot_injective(grid: Grid, x1: int, y1: int, x2: int, y2: int)
    requires
        grid.valid(),
        grid.slot(x1, y1) is Some,
        grid.slot(x1, y1) == grid.slot(x2, y2),
    ensures
        y1 == y2,
        x1 % grid.width == x2 % grid.width,
{
    let w = grid.width;
    let m = (w - 1) / 2;
    let c1 = x1 % w;
    let c2 = x2 % w;
    lemma_mod_bound(x1, w);
    lemma_mod_bound(x2, w);
    let here = y1 * w + c1;
    let there = y2 * w + c2;
    assert(here == 2 * (m * y1) + (y1 + c1)) by (nonlinear_arith)
        requires
            here == y1 * w + c1,
            w == 2 * m + 1,
    ;
    assert(there == 2 * (m * y2) + (y2 + c2)) by (nonlinear_arith)
        requires
            there == y2 * w + c2,
            w == 2 * m + 1,
    ;
    assert(here == there);
    assert(y1 == y2) by (nonlinear_arith)
        requires
            y1 * w + c1 == y2 * w + c2,
            0 <= c1 < w,
            0 <= c2 < w,
    ;
}

/// The LEDs are numbered along the rows: the LED numbered `i` sits in cell
/// `2 * i` of the cells counted row by row, if the rows reach so far.
pub proof fn lemma_slot_onto(grid: Grid, i: int)
    requires
        grid.valid(),
        0 <= i < grid.leds.len(),
        2 * i < grid.height * grid.width,
    ensures
        grid.slot((2 * i) % grid.width, (2 * i) / grid.width) == Some(i),
{
    let w = grid.width;
    let h = grid.height;
    let m = (w - 1) / 2;
    let x = (2 * i) % w;
    let y = (2 * i) / w;
    lemma_fundamental_div_mod(2 * i, w);
    lemma_mod_bound(2 * i, w);
    lemma_small_mod(x as nat, w as nat);
    assert(2 * i == y * w + x) by (nonlinear_arith)
        requires
            2 * i == w * y + x,
    ;
    assert(0 <= y < h) by (nonlinear_arith)
        requires
            2 * i == y * w + x,
            0 <= x < w,
            0 <= i,
            2 * i < h * w,
    ;
    assert(x + y == 2 * i - 2 * (m * y)) by (nonlinear_arith)
        requires
            2 * i == y * w + x,
            w == 2 * m + 1,
    ;
}

/// Two cells of a row that lie less than a full turn apart hold different
/// LEDs.
pub proof fn lemma_columns_differ(grid: Grid, x: int, a: int, b: int, y: int)
    requires
        grid.valid(),
        0 <= a < b < a + grid.width,
        grid.slot(x + a, y) is Some,
    ensures
        grid.slot(x + a, y) != grid.slot(x + b, y),
{
    if grid.slot(x + a, y) == grid.slot(x + b, y) {
        lemma_slot_injective(grid, x + a, y, x + b, y);
        let w = grid.width;
        let p = x + a;
        let q = x + b;
        lemma_fundamental_div_mod(p, w);
        lemma_fundamental_div_mod(q, w);
        let d = q / w - p / w;
        assert(b - a == w * d) by (nonlinear_arith)
            requires
                p == w * (p / w) + p % w,
                q == w * (q / w) + q % w,
                p % w == q % w,
                d == q / w - p / w,
                b - a == q - p,
        ;
        assert(false) by (nonlinear_arith)
            requires
                b - a == w * d,
                0 < b - a < w,
        ;
    }
}

/// The number of the LED in a cell is the number of one of the LEDs.
pub proof fn lemma_slot_bounds(grid: Grid, x: int, y: int)
    requires
        grid.valid(),
    ensures
        grid.slot(x, y) is Some ==> 0 <= grid.slot(x, y)->0 < grid.leds.len(),
{
    let w = grid.width;
    lemma_mod_bound(x, w);
    if 0 <= y {
        assert(y * w >= 0) by (nonlinear_arith)
            requires
                y >= 0,
                w >= 1,
        ;
    }
}

/// Writing to a cell leaves the shape of the grid, and every LED but the
/// one in that cell.
pub proof fn lemma_written(grid: Grid, x: int, y: int, led: LED, i: int)
    requires
        grid.valid(),
        0 <= i < grid.leds.len(),
    ensures
        grid.written(x, y, led).valid(),
        grid.written(x, y, led).width == grid.width,
        grid.written(x, y, led).height == grid.height,
        grid.written(x, y, led).leds.len() == grid.leds.len(),
        grid.written(x, y, led).leds[i] == if grid.slot(x, y) == Some(i) {
            led
        } else {
            grid.leds[i]
        },
{
    lemma_slot_bounds(grid, x, y);
}

/// Writing to a cell leaves the shape of the grid.
pub proof fn lemma_written_shape(grid: Grid, x: int, y: int, led: LED)
    requires
        grid.valid(),
    ensures
        grid.written(x, y, led).valid(),
        grid.written(x, y, led).width == grid.width,
        grid.written(x, y, led).height == grid.height,
        grid.written(x, y, led).leds.len() == grid.leds.len(),
{
    lemma_slot_bounds(grid, x, y);
}

/// Writing a character leaves the shape of the grid.
pub proof fn lemma_dots_shape(grid: Grid, x: int, rows: Seq<u8>, on: LED, off: LED, n: int)
    requires
        grid.valid(),
    ensures
        grid.with_dots(x, rows, on, off, n).valid(),
        grid.with_dots(x, rows, on, off, n).width == grid.width,
        grid.with_dots(x, rows, on, off, n).height == grid.height,
        grid.with_dots(x, rows, on, off, n).leds.len() == grid.leds.len(),
    decreases n,
{
    if n > 0 {
        lemma_dots_shape(grid, x, rows, on, off, n - 1);
        lemma_written_shape(
            grid.with_dots(x, rows, on, off, n - 1),
            x + (n - 1) % 8,
            (n - 1) / 8,
            Grid::dot_led(rows, on, off, n - 1),
        );
    }
}

/// On a hat of eight columns or more, each dot of a character that falls on
/// an LED gives that LED its colour.
pub proof fn lemma_dot_drawn(
    grid: Grid,
    x: int,
    rows: Seq<u8>,
    on: LED,
    off: LED,
    n: int,
    k: int,
)
    requires
        grid.valid(),
        grid.width >= 8,
        0 <= k < n <= 64,
        grid.dot_slot(x, k) is Some,
    ensures
        grid.with_dots(x, rows, on, off, n).leds[grid.dot_slot(x, k)->0] == Grid::dot_led(
            rows,
            on,
            off,
            k,
        ),
    decreases n,
{
    let i = grid.dot_slot(x, k)->0;
    let before = grid.with_dots(x, rows, on, off, n - 1);
    let last = n - 1;
    lemma_dots_shape(grid, x, rows, on, off, n - 1);
    lemma_slot_of_same_shape(grid, before, x + last % 8, last / 8);
    lemma_written(before, x + last % 8, last / 8, Grid::dot_led(rows, on, off, last), i);
    if k < last {
        lemma_dot_drawn(grid, x, rows, on, off, n - 1, k);
        if k / 8 == last / 8 {
            lemma_columns_differ(grid, x, k % 8, last % 8, k / 8);
        } else if grid.slot(x + last % 8, last / 8) == Some(i) {
            lemma_slot_injective(grid, x + k % 8, k / 8, x + last % 8, last / 8);
        }
    }
}

/// An LED on which no dot of a character falls keeps its colour.
pub proof fn lemma_dots_elsewhere(
    grid: Grid,
    x: int,
    rows: Seq<u8>,
    on: LED,
    off: LED,
    n: int,
    i: int,
)
    requires
        grid.valid(),
        0 <= i < grid.leds.len(),
        forall|k: int| 0 <= k < n ==> #[trigger] grid.dot_slot(x, k) != Some(i),
    ensures
        grid.with_dots(x, rows, on, off, n).leds[i] == grid.leds[i],
    decreases n,
{
    if n > 0 {
        let before = grid.with_dots(x, rows, on, off, n - 1);
        let last = n - 1;
        lemma_dots_elsewhere(grid, x, rows, on, off, n - 1, i);
        lemma_dots_shape(grid, x, rows, on, off, n - 1);
        lemma_slot_of_same_shape(grid, before, x + last % 8, last / 8);
        lemma_written(before, x + last % 8, last / 8, Grid::dot_led(rows, on, off, last), i);
        assert(grid.dot_slot(x, last) != Some(i));
    }
}

/// Writing text leaves the shape of the grid.
pub proof fn lemma_text_shape(grid: Grid, x: int, text: Seq<char>, on: LED, off: LED, n: int)
    requires
        grid.valid(),
    ensures
        grid.with_text(x, text, on, off, n).valid(),
        grid.with_text(x, text, on, off, n).width == grid.width,
        grid.with_text(x, text, on, off, n).height == grid.height,
        grid.with_text(x, text, on, off, n).leds.len() == grid.leds.len(),
    decreases n,
{
    if n > 0 {
        lemma_text_shape(grid, x, text, on, off, n - 1);
        let before = grid.with_text(x, text, on, off, n - 1);
        match glyph(text[n - 1]) {
            Some(rows) => {
                lemma_dots_shape(before, x + 8 * (n - 1), rows, on, off, 64);
            },
            None => {},
        }
    }
}

/// Where the text fits around the hat, each dot of each of its characters
/// that falls on an LED gives that LED its colour: dot `k` of character `j`
/// lies in column `x + 8 * j + k % 8` and row `k / 8`.
pub proof fn lemma_text_drawn(
    grid: Grid,
    x: int,
    text: Seq<char>,
    on: LED,
    off: LED,
    n: int,
    j: int,
    k: int,
)
    requires
        grid.valid(),
        0 <= j < n <= text.len(),
        8 * n <= grid.width,
        0 <= k < 64,
        glyph(text[j]) is Some,
        grid.dot_slot(x + 8 * j, k) is Some,
    ensures
        grid.with_text(x, text, on, off, n).leds[grid.dot_slot(x + 8 * j, k)->0] == Grid::dot_led(
            glyph(text[j])->0,
            on,
            off,
            k,
        ),
    decreases n,
{
    let i = grid.dot_slot(x + 8 * j, k)->0;
    let before = grid.with_text(x, text, on, off, n - 1);
    let at = x + 8 * (n - 1);
    lemma_text_shape(grid, x, text, on, off, n - 1);
    if j == n - 1 {
        let rows = glyph(text[j])->0;
        lemma_slot_of_same_shape(grid, before, at + k % 8, k / 8);
        lemma_dot_drawn(before, at, rows, on, off, 64, k);
    } else {
        lemma_text_drawn(grid, x, text, on, off, n - 1, j, k);
        match glyph(text[n - 1]) {
            Some(rows) => {
                assert forall|m: int| 0 <= m < 64 implies #[trigger] before.dot_slot(at, m)
                    != Some(i) by {
                    lemma_slot_of_same_shape(grid, before, at + m % 8, m / 8);
                    if m / 8 == k / 8 {
                        lemma_columns_differ(grid, x, 8 * j + k % 8, 8 * (n - 1) + m % 8, k / 8);
                    } else if grid.slot(at + m % 8, m / 8) == Some(i) {
                        lemma_slot_injective(
                            grid,
                            x + 8 * j + k % 8,
                            k / 8,
                            at + m % 8,
                            m / 8,
                        );
                    }
                }
                lemma_dots_elsewhere(before, at, rows, on, off, 64, i);
            },
            None => {},
        }
    }
}

/// An LED on which no dot of the text falls keeps its colour.
pub proof fn lemma_text_elsewhere(
    grid: Grid,
    x: int,
    text: Seq<char>,
    on: LED,
    off: LED,
    n: int,
    i: int,
)
    requires
        grid.valid(),
        0 <= i < grid.leds.len(),
        n <= text.len(),
        forall|j: int, k: int|
            0 <= j < n && 0 <= k < 64 && glyph(text[j]) is Some ==> #[trigger] grid.dot_slot(
                x + 8 * j,
                k,
            ) != Some(i),
    ensures
        grid.with_text(x, text, on, off, n).leds[i] == grid.leds[i],
    decreases n,
{
    if n > 0 {
        let before = grid.with_text(x, text, on, off, n - 1);
        let at = x + 8 * (n - 1);
        lemma_text_elsewhere(grid, x, text, on, off, n - 1, i);
        lemma_text_shape(grid, x, text, on, off, n - 1);
        match glyph(text[n - 1]) {
            Some(rows) => {
                assert forall|m: int| 0 <= m < 64 implies #[trigger] before.dot_slot(at, m)
                    != Some(i) by {
                    lemma_slot_of_same_shape(grid, before, at + m % 8, m / 8);
                    assert(grid.dot_slot(x + 8 * (n - 1), m) != Some(i));
                }
                lemma_dots_elsewhere(before, at, rows, on, off, 64, i);
            },
            None => {},
        }
    }
}

/// Writing to a cell one full turn further on writes to the same LED.
pub proof fn lemma_written_wraps(grid: Grid, x: int, y: int, led: LED)
    requires
        grid.valid(),
    ensures
        grid.written(x + grid.width, y, led) == grid.written(x, y, led),
{
    lemma_slot_wraps(grid, x, y);
}

/// Lights set one full turn further on fall on the same LEDs.
pub proof fn lemma_gain_wraps(grid: Grid, ix: int, iy: int, lights: Seq<LED>, i: int, n: int)
    requires
        grid.valid(),
    ensures
        grid.gain(ix + grid.width, iy, lights, i, n) == grid.gain(ix, iy, lights, i, n),
    decreases n,
{
    if n > 0 {
        lemma_gain_wraps(grid, ix, iy, lights, i, n - 1);
        let (x, y) = Grid::light_cell(ix, iy, n - 1);
        lemma_slot_wraps(grid, x, y);
        assert(Grid::light_cell(ix + grid.width, iy, n - 1) == (x + grid.width, y));
    }
}

/// Lights set one full turn further on leave the same picture.
pub proof fn lemma_set_wraps(grid: Grid, ix: int, iy: int, lights: Seq<LED>)
    requires
        grid.valid(),
    ensures
        grid.lit(ix + grid.width, iy, lights, 16) == grid.lit(ix, iy, lights, 16),
{
    assert forall|i: int| 0 <= i < grid.leds.len() implies grid.lit(
        ix + grid.width,
        iy,
        lights,
        16,
    ).leds[i] == grid.lit(ix, iy, lights, 16).leds[i] by {
        lemma_gain_wraps(grid, ix, iy, lights, i, 16);
    }
    assert(grid.lit(ix + grid.width, iy, lights, 16).leds =~= grid.lit(ix, iy, lights, 16).leds);
}

/// The first `n` colours of `leds` in hexadecimal digits, six for each, one
/// after the other.
pub open spec fn frame_hex(leds: Seq<LED>, n: int) -> Seq<char>
    decreases n,
{
    if n <= 0 {
        Seq::empty()
    } else {
        frame_hex(leds, n - 1) + hex_string(leds[n - 1])
    }
}

/// The colours of `leds` as bytes, three for each: red, green, blue.
pub open spec fn frame_bytes(leds: Seq<LED>) -> Seq<u8> {
    Seq::new(
        3 * leds.len(),
        |i: int|
            if i % 3 == 0 {
                leds[i / 3].red
            } else if i % 3 == 1 {
                leds[i / 3].green
            } else {
                leds[i / 3].blue
            },
    )
}

/// The colours of `leds` in hexadecimal digits, six for each, one after the
/// other.
pub fn hex_of(leds: &Vec<LED>) -> (text: String)
    ensures
        text@ == frame_hex(leds@, leds@.len() as int),
{
    let mut text = String::new();
    let mut i: usize = 0;
    while i < leds.len()
        invariant
            i <= leds.len(),
            text@ == frame_hex(leds@, i as int),
        decreases leds.len() - i,
    {
        let one = leds[i].to_string();
        text.append(one.as_str());
        i = i + 1;
    }
    text
}

/// The colours of `leds` as bytes, three for each: red, green, blue.
pub fn bytes_of(leds: &Vec<LED>) -> (bytes: Vec<u8>)
    ensures
        bytes@ == frame_bytes(leds@),
{
    let mut bytes: Vec<u8> = Vec::new();
    let mut i: usize = 0;
    while i < leds.len()
        invariant
            i <= leds.len(),
            bytes@.len() == 3 * i,
            forall|j: int| 0 <= j < 3 * i ==> bytes@[j] == frame_bytes(leds@)[j],
        decreases leds.len() - i,
    {
        bytes.push(leds[i].red());
        bytes.push(leds[i].green());
        bytes.push(leds[i].blue());
        i = i + 1;
    }
    assert(bytes@ =~= frame_bytes(leds@));
    bytes
}

} // verus!
