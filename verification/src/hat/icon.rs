//! Pictures: a small library of bitmaps, and how they move with time.

use crate::hat::leds::{
    lemma_columns_differ, lemma_slot_bounds, lemma_slot_injective, lemma_slot_of_same_shape,
    lemma_written, lemma_written_shape, lemma_written_wraps, Grid, LEDCriss, LED,
};
use crate::hat::text::chars_of;
use vstd::prelude::*;

verus! {

#[derive(Debug, Clone, Copy, PartialEq, Eq, Structural)]
pub enum IconType {
    Empty,
    Test,
    Pumpkin,
    Fish,
    Pacman,
    BlackAlps,
}

/// The rows of a bitmap that have been read in full, and the row that is
/// being read, after the first `n` characters of `s`. A line break ends a
/// row, blanks are dropped, and a row without dots is no row.
pub open spec fn scanned(s: Seq<char>, n: int) -> (Seq<Seq<char>>, Seq<char>)
    decreases n,
{
    if n <= 0 {
        (Seq::empty(), Seq::empty())
    } else {
        let (done, row) = scanned(s, n - 1);
        let c = s[n - 1];
        if c == '\n' {
            (ended(done, row), Seq::empty())
        } else if c == ' ' {
            (done, row)
        } else {
            (done, row.push(c))
        }
    }
}

/// `done` with `row` added, if `row` holds any dot.
pub open spec fn ended(done: Seq<Seq<char>>, row: Seq<char>) -> Seq<Seq<char>> {
    if row.len() > 0 {
        done.push(row)
    } else {
        done
    }
}

/// The rows of the bitmap that `s` spells, top row first: its lines without
/// their blanks, empty lines left out.
pub open spec fn bitmap(s: Seq<char>) -> Seq<Seq<char>> {
    let (done, row) = scanned(s, s.len() as int);
    ended(done, row)
}

/// The decimal digit that `c` is.
pub open spec fn digit_value(c: char) -> Option<int> {
    if '0' <= c <= '9' {
        Some(c as int - '0' as int)
    } else {
        None
    }
}

/// The colour of the dot `c`: a digit from 1 on picks that entry of the
/// palette. The digit 0 is see-through, and so is a digit past the palette
/// and any other character.
pub open spec fn paint(palette: Seq<LED>, c: char) -> Option<LED> {
    match digit_value(c) {
        Some(d) => if 0 < d < palette.len() {
            Some(palette[d])
        } else {
            None
        },
        None => None,
    }
}

/// The contents of the rows, for contracts.
pub open spec fn rows_view(rows: Seq<Vec<char>>) -> Seq<Seq<char>> {
    rows.map_values(|row: Vec<char>| row@)
}

/// The grid with the first `n` dots of `row` drawn from column `x` on, in
/// grid row `y`.
pub open spec fn with_row(grid: Grid, row: Seq<char>, palette: Seq<LED>, x: int, y: int, n: int)
    -> Grid
    decreases n,
{
    if n <= 0 {
        grid
    } else {
        let before = with_row(grid, row, palette, x, y, n - 1);
        match paint(palette, row[n - 1]) {
            Some(led) => before.written(x + n - 1, y, led),
            None => before,
        }
    }
}

/// The grid with the first `n` of `rows` drawn. The last of `rows` lies in
/// grid row `y`, the one before it a row higher, and so on: the picture
/// stands upright on row `y`.
pub open spec fn with_rows(
    grid: Grid,
    rows: Seq<Seq<char>>,
    palette: Seq<LED>,
    x: int,
    y: int,
    n: int,
) -> Grid
    decreases n,
{
    if n <= 0 {
        grid
    } else {
        with_row(
            with_rows(grid, rows, palette, x, y, n - 1),
            rows[n - 1],
            palette,
            x,
            y + rows.len() - n,
            rows[n - 1].len() as int,
        )
    }
}

/// The dark grid with the picture that `pattern` spells drawn at column `x`,
/// standing on row `y`.
pub open spec fn with_icon(grid: Grid, pattern: Seq<char>, palette: Seq<LED>, x: int, y: int)
    -> Grid {
    let rows = bitmap(pattern);
    with_rows(
        grid.filled(LED { red: 0, green: 0, blue: 0 }),
        rows,
        palette,
        x,
        y,
        rows.len() as int,
    )
}

/// The number of the LED on which dot `c` of row `r` of the picture `rows`
/// falls, if it falls on one, where the picture is drawn at column `x`,
/// standing on row `y`.
pub open spec fn picture_slot(grid: Grid, rows: Seq<Seq<char>>, x: int, y: int, r: int, c: int)
    -> Option<int> {
    grid.slot(x + c, y + rows.len() - 1 - r)
}

/// The number of the LED on which dot `c` of a row falls, if it falls on
/// one, where the row is drawn from column `x` on, in grid row `y`.
pub open spec fn row_slot(grid: Grid, x: int, y: int, c: int) -> Option<int> {
    grid.slot(x + c, y)
}

/// The grid with the lowest `n` cells of column `x` set to `led`.
pub open spec fn with_column(grid: Grid, x: int, led: LED, n: int) -> Grid
    decreases n,
{
    if n <= 0 {
        grid
    } else {
        with_column(grid, x, led, n - 1).written(x, n - 1, led)
    }
}

/// Which picture of the chewing face shows at `time`: the mouth opens in
/// three steps and closes again, one step each tenth of a second.
pub open spec fn chewing_frame(time: int) -> int {
    let step = (time % 74000) / 100 % 7;
    if step >= 3 {
        step - 3
    } else {
        3 - step
    }
}

/// What the icon `icon` leaves on `grid` at `time`, in milliseconds, with
/// the swaying pictures moved `sway` columns to the right.
///
/// The fish and the mountains pass by at two columns a second, the chewing
/// face at five; the pumpkin and the test bar sway around their places.
/// The empty icon leaves the grid as it is.
pub open spec fn icon_frame(grid: Grid, icon: IconType, time: int, sway: int) -> Grid {
    let black = LED { red: 0, green: 0, blue: 0 };
    match icon {
        IconType::Empty => grid,
        IconType::Test => with_column(
            grid.filled(black),
            40 + sway,
            LED { red: 0x80, green: 0, blue: 0 },
            grid.height,
        ),
        IconType::Pumpkin => with_icon(
            grid,
            PUMPKIN@,
            seq![black, LED { red: 0x40, green: 0x20, blue: 0 }],
            20 + sway,
            0,
        ),
        IconType::Fish => with_icon(
            grid,
            FISH@,
            seq![black, LED { red: 0x20, green: 0x40, blue: 0x40 }],
            (time % 37000) / 500,
            0,
        ),
        IconType::BlackAlps => with_icon(
            grid,
            BLACKALPS@,
            seq![black, LED { red: 0x10, green: 0x30, blue: 0x30 }],
            (time % 37000) / 500,
            0,
        ),
        IconType::Pacman => with_icon(
            grid,
            chewing_pattern(chewing_frame(time))@,
            seq![
                black,
                LED { red: 0x30, green: 0x30, blue: 0x10 },
                LED { red: 0xa0, green: 0x50, blue: 0x50 },
            ],
            (time % 74000) / 100 / 2,
            0,
        ),
    }
}

/// The picture of the chewing face with the mouth `frame` steps open.
pub open spec fn chewing_pattern(frame: int) -> &'static str {
    if frame <= 0 {
        PACMAN_SHUT
    } else if frame == 1 {
        PACMAN_AJAR
    } else if frame == 2 {
        PACMAN_OPEN
    } else {
        PACMAN_WIDE
    }
}

/// What an `Icon` stands for: its LEDs and the icon it shows.
pub struct IconView {
    pub grid: Grid,
    pub icon: IconType,
}

pub struct Icon {
    leds: LEDCriss,
    icon: IconType,
}

impl View for Icon {
    type V = IconView;

    closed spec fn view(&self) -> IconView {
        IconView { grid: self.leds@, icon: self.icon }
    }
}

impl Icon {
    pub open spec fn wf(&self) -> bool {
        self@.grid.valid()
    }

    pub fn new(leds: usize, circum: usize) -> (icon: Self)
        requires
            circum >= 1,
            2 * circum - 1 <= usize::MAX,
        ensures
            icon.wf(),
            icon@.icon == IconType::Fish,
            icon@.grid == LEDCriss::new_spec(leds, circum),
    {
        Self { leds: LEDCriss::new(leds, circum), icon: IconType::Fish }
    }

    pub fn set_icon(&mut self, icon: IconType)
        ensures
            final(self)@ == (IconView { icon, ..old(self)@ }),
    {
        self.icon = icon;
    }

    /// Draws the icon as it looks at `time`, in milliseconds, and returns
    /// the colours of the LEDs.
    ///
    /// `sway` is how far the swaying pictures stand to the right of their
    /// places at this moment, in columns.
    pub fn get_leds(&mut self, time: u128, sway: i64) -> (leds: Vec<LED>)
        requires
            old(self).wf(),
        ensures
            final(self).wf(),
            final(self)@.icon == old(self)@.icon,
            final(self)@.grid == icon_frame(
                old(self)@.grid,
                old(self)@.icon,
                time as int,
                sway as int,
            ),
            leds@ == final(self)@.grid.leds,
    {
        match self.icon {
            IconType::Empty => {},
            IconType::Test => {
                self.leds.clear();
                let ghost dark = self.leds@;
                let led = LED::from_rgb(0x80, 0, 0);
                let height: usize = self.leds.range().1;
                let mut y: usize = 0;
                while y < height
                    invariant
                        y <= height,
                        height == dark.height,
                        self.leds.wf(),
                        self.icon == old(self).icon,
                        self.leds@ == with_column(dark, 40 + sway, led, y as int),
                    decreases height - y,
                {
                    self.leds.write(40 + sway as i128, y as i128, &led);
                    y = y + 1;
                }
            },
            IconType::Pumpkin => {
                let mut colors: Vec<LED> = Vec::new();
                colors.push(LED::black());
                colors.push(LED::from_rgb(0x40, 0x20, 0));
                assert(colors@ =~= seq![
                    LED { red: 0, green: 0, blue: 0 },
                    LED { red: 0x40, green: 0x20, blue: 0 },
                ]);
                self.draw(20 + sway as i128, 0, PUMPKIN, &colors);
            },
            IconType::Fish => {
                let mut colors: Vec<LED> = Vec::new();
                colors.push(LED::black());
                colors.push(LED::from_rgb(0x20, 0x40, 0x40));
                assert(colors@ =~= seq![
                    LED { red: 0, green: 0, blue: 0 },
                    LED { red: 0x20, green: 0x40, blue: 0x40 },
                ]);
                self.draw(((time % 37000) / 500) as i128, 0, FISH, &colors);
            },
            IconType::BlackAlps => {
                let mut colors: Vec<LED> = Vec::new();
                colors.push(LED::black());
                colors.push(LED::from_rgb(0x10, 0x30, 0x30));
                assert(colors@ =~= seq![
                    LED { red: 0, green: 0, blue: 0 },
                    LED { red: 0x10, green: 0x30, blue: 0x30 },
                ]);
                self.draw(((time % 37000) / 500) as i128, 0, BLACKALPS, &colors);
            },
            IconType::Pacman => {
                let posx: u128 = (time % 74000) / 100;
                let step: u128 = posx % 7;
                let frame: u128 = if step >= 3 {
                    step - 3
                } else {
                    3 - step
                };
                let pattern = if frame == 0 {
                    PACMAN_SHUT
                } else if frame == 1 {
                    PACMAN_AJAR
                } else if frame == 2 {
                    PACMAN_OPEN
                } else {
                    PACMAN_WIDE
                };
                let mut colors: Vec<LED> = Vec::new();
                colors.push(LED::black());
                colors.push(LED::from_rgb(0x30, 0x30, 0x10));
                colors.push(LED::from_rgb(0xa0, 0x50, 0x50));
                assert(colors@ =~= seq![
                    LED { red: 0, green: 0, blue: 0 },
                    LED { red: 0x30, green: 0x30, blue: 0x10 },
                    LED { red: 0xa0, green: 0x50, blue: 0x50 },
                ]);
                self.draw((posx / 2) as i128, 0, pattern, &colors);
            },
        }
        self.leds.frame()
    }

    pub fn get_icon(&self) -> (icon: IconType)
        ensures
            icon == self@.icon,
    {
        self.icon
    }

    /// Clears the LEDs and draws the picture that `pattern` spells at column
    /// `pos_x`, standing on row `pos_y`.
    ///
    /// A pattern is a picture in text: one line for each row, top row first,
    /// one digit for each dot. Blanks and empty lines do not count. A digit
    /// from 1 on is drawn in that entry of `colors`; everything else is
    /// see-through. Columns wrap around the hat, and what falls on a cell
    /// without an LED is not drawn.
    pub fn draw_icon(&mut self, pos_x: i64, pos_y: i64, pattern: &str, colors: &Vec<LED>)
        requires
            old(self).wf(),
        ensures
            final(self).wf(),
            final(self)@.icon == old(self)@.icon,
            final(self)@.grid == with_icon(
                old(self)@.grid,
                pattern@,
                colors@,
                pos_x as int,
                pos_y as int,
            ),
    {
        self.draw(pos_x as i128, pos_y as i128, pattern, colors);
    }

    fn draw(&mut self, pos_x: i128, pos_y: i128, pattern: &str, colors: &Vec<LED>)
        requires
            old(self).wf(),
            -0x1_0000_0000_0000_0000_0000 <= pos_x <= 0x1_0000_0000_0000_0000_0000,
            -0x1_0000_0000_0000_0000_0000 <= pos_y <= 0x1_0000_0000_0000_0000_0000,
        ensures
            final(self).wf(),
            final(self)@.icon == old(self)@.icon,
            final(self)@.grid == with_icon(
                old(self)@.grid,
                pattern@,
                colors@,
                pos_x as int,
                pos_y as int,
            ),
    {
        let rows = read_bitmap(pattern);
        self.leds.clear();
        let ghost dark = self.leds@;
        let ghost lines = rows_view(rows@);
        let count: usize = rows.len();
        let mut r: usize = 0;
        while r < count
            invariant
                r <= count,
                count == rows.len(),
                lines == rows_view(rows@),
                self.leds.wf(),
                self.icon == old(self).icon,
                -0x1_0000_0000_0000_0000_0000 <= pos_x <= 0x1_0000_0000_0000_0000_0000,
                -0x1_0000_0000_0000_0000_0000 <= pos_y <= 0x1_0000_0000_0000_0000_0000,
                self.leds@ == with_rows(dark, lines, colors@, pos_x as int, pos_y as int, r as int),
            decreases count - r,
        {
            let row = &rows[r];
            let y: i128 = pos_y + (count - 1 - r) as i128;
            let ghost above = self.leds@;
            assert(lines[r as int] == row@);
            let mut c: usize = 0;
            while c < row.len()
                invariant
                    c <= row.len(),
                    self.leds.wf(),
                    self.icon == old(self).icon,
                    -0x1_0000_0000_0000_0000_0000 <= pos_x <= 0x1_0000_0000_0000_0000_0000,
                    self.leds@ == with_row(above, row@, colors@, pos_x as int, y as int, c as int),
                decreases row.len() - c,
            {
                match color_of(colors, row[c]) {
                    Some(led) => {
                        self.leds.write(pos_x + c as i128, y, &led);
                    },
                    None => {},
                }
                c = c + 1;
            }
            r = r + 1;
        }
    }
}

/// Whether `row` holds neither blanks nor line breaks.
pub open spec fn is_dots(row: Seq<char>) -> bool {
    forall|c: int| 0 <= c < row.len() ==> (#[trigger] row[c]) != ' ' && row[c] != '\n'
}

/// Whether none of `rows` is empty or holds a blank or a line break.
pub open spec fn are_rows(rows: Seq<Seq<char>>) -> bool {
    forall|r: int| 0 <= r < rows.len() ==> (#[trigger] rows[r]).len() > 0 && is_dots(rows[r])
}

/// What has been read of a bitmap is rows of dots: no row is empty, and
/// none holds a blank or a line break.
pub proof fn lemma_scanned_rows(s: Seq<char>, n: int)
    requires
        0 <= n <= s.len(),
    ensures
        are_rows(scanned(s, n).0),
        is_dots(scanned(s, n).1),
    decreases n,
{
    if n > 0 {
        lemma_scanned_rows(s, n - 1);
        let (done, row) = scanned(s, n - 1);
        let c = s[n - 1];
        if c == '\n' {
            if row.len() > 0 {
                let more = done.push(row);
                assert forall|r: int| 0 <= r < more.len() implies (#[trigger] more[r]).len() > 0
                    && is_dots(more[r]) by {
                    if r < done.len() {
                        assert(more[r] == done[r]);
                    } else {
                        assert(more[r] == row);
                    }
                }
            }
        } else if c != ' ' {
            let longer = row.push(c);
            assert forall|k: int| 0 <= k < longer.len() implies (#[trigger] longer[k]) != ' '
                && longer[k] != '\n' by {
                if k < row.len() {
                    assert(longer[k] == row[k]);
                }
            }
        }
    }
}

/// A bitmap is rows of dots: no row is empty, and none holds a blank or a
/// line break.
pub proof fn lemma_bitmap_rows(s: Seq<char>)
    ensures
        are_rows(bitmap(s)),
{
    lemma_scanned_rows(s, s.len() as int);
    let (done, row) = scanned(s, s.len() as int);
    if row.len() > 0 {
        let more = done.push(row);
        assert forall|r: int| 0 <= r < more.len() implies (#[trigger] more[r]).len() > 0
            && is_dots(more[r]) by {
            if r < done.len() {
                assert(more[r] == done[r]);
            } else {
                assert(more[r] == row);
            }
        }
    }
}

/// Drawing a row leaves the shape of the grid.
pub proof fn lemma_row_shape(grid: Grid, row: Seq<char>, palette: Seq<LED>, x: int, y: int, n: int)
    requires
        grid.valid(),
    ensures
        with_row(grid, row, palette, x, y, n).valid(),
        with_row(grid, row, palette, x, y, n).width == grid.width,
        with_row(grid, row, palette, x, y, n).height == grid.height,
        with_row(grid, row, palette, x, y, n).leds.len() == grid.leds.len(),
    decreases n,
{
    if n > 0 {
        lemma_row_shape(grid, row, palette, x, y, n - 1);
        let before = with_row(grid, row, palette, x, y, n - 1);
        match paint(palette, row[n - 1]) {
            Some(led) => {
                lemma_written_shape(before, x + n - 1, y, led);
            },
            None => {},
        }
    }
}

/// Drawing rows leaves the shape of the grid.
pub proof fn lemma_rows_shape(
    grid: Grid,
    rows: Seq<Seq<char>>,
    palette: Seq<LED>,
    x: int,
    y: int,
    n: int,
)
    requires
        grid.valid(),
    ensures
        with_rows(grid, rows, palette, x, y, n).valid(),
        with_rows(grid, rows, palette, x, y, n).width == grid.width,
        with_rows(grid, rows, palette, x, y, n).height == grid.height,
        with_rows(grid, rows, palette, x, y, n).leds.len() == grid.leds.len(),
    decreases n,
{
    if n > 0 {
        lemma_rows_shape(grid, rows, palette, x, y, n - 1);
        lemma_row_shape(
            with_rows(grid, rows, palette, x, y, n - 1),
            rows[n - 1],
            palette,
            x,
            y + rows.len() - n,
            rows[n - 1].len() as int,
        );
    }
}

/// Where a row fits around the hat, each of its dots that has a colour and
/// falls on an LED gives that LED its colour.
pub proof fn lemma_row_drawn(
    grid: Grid,
    row: Seq<char>,
    palette: Seq<LED>,
    x: int,
    y: int,
    n: int,
    c: int,
)
    requires
        grid.valid(),
        0 <= c < n <= grid.width,
        paint(palette, row[c]) is Some,
        row_slot(grid, x, y, c) is Some,
    ensures
        with_row(grid, row, palette, x, y, n).leds[row_slot(grid, x, y, c)->0] == paint(
            palette,
            row[c],
        )->0,
    decreases n,
{
    let i = grid.slot(x + c, y)->0;
    let before = with_row(grid, row, palette, x, y, n - 1);
    lemma_row_shape(grid, row, palette, x, y, n - 1);
    lemma_slot_bounds(grid, x + c, y);
    lemma_slot_of_same_shape(grid, before, x + n - 1, y);
    if c < n - 1 {
        lemma_row_drawn(grid, row, palette, x, y, n - 1, c);
        lemma_columns_differ(grid, x, c, n - 1, y);
    }
    match paint(palette, row[n - 1]) {
        Some(led) => {
            lemma_written(before, x + n - 1, y, led, i);
        },
        None => {},
    }
}

/// An LED on which no dot of a row falls that has a colour keeps its own.
pub proof fn lemma_row_elsewhere(
    grid: Grid,
    row: Seq<char>,
    palette: Seq<LED>,
    x: int,
    y: int,
    n: int,
    i: int,
)
    requires
        grid.valid(),
        0 <= i < grid.leds.len(),
        forall|c: int|
            0 <= c < n && paint(palette, row[c]) is Some ==> #[trigger] row_slot(grid, x, y, c)
                != Some(i),
    ensures
        with_row(grid, row, palette, x, y, n).leds[i] == grid.leds[i],
    decreases n,
{
    if n > 0 {
        let before = with_row(grid, row, palette, x, y, n - 1);
        lemma_row_elsewhere(grid, row, palette, x, y, n - 1, i);
        lemma_row_shape(grid, row, palette, x, y, n - 1);
        lemma_slot_of_same_shape(grid, before, x + n - 1, y);
        match paint(palette, row[n - 1]) {
            Some(led) => {
                assert(row_slot(grid, x, y, n - 1) != Some(i));
                lemma_written(before, x + n - 1, y, led, i);
            },
            None => {},
        }
    }
}

/// Where the rows of a picture fit around the hat, each of its dots that has
/// a colour and falls on an LED gives that LED its colour.
pub proof fn lemma_rows_drawn(
    grid: Grid,
    rows: Seq<Seq<char>>,
    palette: Seq<LED>,
    x: int,
    y: int,
    n: int,
    r: int,
    c: int,
)
    requires
        grid.valid(),
        0 <= r < n <= rows.len(),
        forall|k: int| 0 <= k < n ==> (#[trigger] rows[k]).len() <= grid.width,
        0 <= c < rows[r].len(),
        paint(palette, rows[r][c]) is Some,
        picture_slot(grid, rows, x, y, r, c) is Some,
    ensures
        with_rows(grid, rows, palette, x, y, n).leds[picture_slot(grid, rows, x, y, r, c)->0]
            == paint(palette, rows[r][c])->0,
    decreases n,
{
    let i = picture_slot(grid, rows, x, y, r, c)->0;
    let before = with_rows(grid, rows, palette, x, y, n - 1);
    let row = rows[n - 1];
    let at = y + rows.len() - n;
    lemma_rows_shape(grid, rows, palette, x, y, n - 1);
    lemma_slot_bounds(grid, x + c, y + rows.len() - 1 - r);
    if r == n - 1 {
        lemma_slot_of_same_shape(grid, before, x + c, at);
        lemma_row_drawn(before, row, palette, x, at, row.len() as int, c);
    } else {
        lemma_rows_drawn(grid, rows, palette, x, y, n - 1, r, c);
        assert forall|k: int| 0 <= k < row.len() && paint(palette, row[k]) is Some implies
            #[trigger] row_slot(before, x, at, k) != Some(i) by {
            lemma_slot_of_same_shape(grid, before, x + k, at);
            if grid.slot(x + k, at) == Some(i) {
                lemma_slot_injective(grid, x + c, y + rows.len() - 1 - r, x + k, at);
            }
        }
        lemma_row_elsewhere(before, row, palette, x, at, row.len() as int, i);
    }
}

/// An LED on which no dot of a picture falls that has a colour keeps its
/// own.
pub proof fn lemma_rows_elsewhere(
    grid: Grid,
    rows: Seq<Seq<char>>,
    palette: Seq<LED>,
    x: int,
    y: int,
    n: int,
    i: int,
)
    requires
        grid.valid(),
        0 <= i < grid.leds.len(),
        n <= rows.len(),
        forall|r: int, c: int|
            0 <= r < n && 0 <= c < rows[r].len() && paint(palette, rows[r][c]) is Some
                ==> #[trigger] picture_slot(grid, rows, x, y, r, c) != Some(i),
    ensures
        with_rows(grid, rows, palette, x, y, n).leds[i] == grid.leds[i],
    decreases n,
{
    if n > 0 {
        let before = with_rows(grid, rows, palette, x, y, n - 1);
        let row = rows[n - 1];
        let at = y + rows.len() - n;
        lemma_rows_elsewhere(grid, rows, palette, x, y, n - 1, i);
        lemma_rows_shape(grid, rows, palette, x, y, n - 1);
        assert forall|k: int| 0 <= k < row.len() && paint(palette, row[k]) is Some implies
            #[trigger] row_slot(before, x, at, k) != Some(i) by {
            lemma_slot_of_same_shape(grid, before, x + k, at);
            assert(picture_slot(grid, rows, x, y, n - 1, k) != Some(i));
        }
        lemma_row_elsewhere(before, row, palette, x, at, row.len() as int, i);
    }
}

/// Where the rows of a picture fit around the hat, the icon shows each dot
/// that has a colour on the LED on which it falls.
pub proof fn lemma_icon_drawn(
    grid: Grid,
    pattern: Seq<char>,
    palette: Seq<LED>,
    x: int,
    y: int,
    r: int,
    c: int,
)
    requires
        grid.valid(),
        0 <= r < bitmap(pattern).len(),
        forall|k: int|
            0 <= k < bitmap(pattern).len() ==> (#[trigger] bitmap(pattern)[k]).len()
                <= grid.width,
        0 <= c < bitmap(pattern)[r].len(),
        paint(palette, bitmap(pattern)[r][c]) is Some,
        picture_slot(grid, bitmap(pattern), x, y, r, c) is Some,
    ensures
        with_icon(grid, pattern, palette, x, y).leds[picture_slot(
            grid,
            bitmap(pattern),
            x,
            y,
            r,
            c,
        )->0] == paint(palette, bitmap(pattern)[r][c])->0,
{
    let rows = bitmap(pattern);
    let dark = grid.filled(LED { red: 0, green: 0, blue: 0 });
    lemma_slot_of_same_shape(grid, dark, x + c, y + rows.len() - 1 - r);
    lemma_rows_drawn(dark, rows, palette, x, y, rows.len() as int, r, c);
}

/// The icon leaves every LED dark on which no dot of its picture falls that
/// has a colour.
pub proof fn lemma_icon_elsewhere(
    grid: Grid,
    pattern: Seq<char>,
    palette: Seq<LED>,
    x: int,
    y: int,
    i: int,
)
    requires
        grid.valid(),
        0 <= i < grid.leds.len(),
        forall|r: int, c: int|
            0 <= r < bitmap(pattern).len() && 0 <= c < bitmap(pattern)[r].len() && paint(
                palette,
                bitmap(pattern)[r][c],
            ) is Some ==> #[trigger] picture_slot(grid, bitmap(pattern), x, y, r, c) != Some(i),
    ensures
        with_icon(grid, pattern, palette, x, y).leds[i] == (LED { red: 0, green: 0, blue: 0 }),
{
    let rows = bitmap(pattern);
    let dark = grid.filled(LED { red: 0, green: 0, blue: 0 });
    assert forall|r: int, c: int|
        0 <= r < rows.len() && 0 <= c < rows[r].len() && paint(palette, rows[r][c]) is Some
        implies #[trigger] picture_slot(dark, rows, x, y, r, c) != Some(i) by {
        lemma_slot_of_same_shape(grid, dark, x + c, y + rows.len() - 1 - r);
        assert(picture_slot(grid, rows, x, y, r, c) != Some(i));
    }
    lemma_rows_elsewhere(dark, rows, palette, x, y, rows.len() as int, i);
}

/// A row drawn one full turn further on is the same row.
pub proof fn lemma_row_wraps(
    grid: Grid,
    row: Seq<char>,
    palette: Seq<LED>,
    x: int,
    y: int,
    n: int,
)
    requires
        grid.valid(),
    ensures
        with_row(grid, row, palette, x + grid.width, y, n) == with_row(grid, row, palette, x, y, n),
        with_row(grid, row, palette, x, y, n).width == grid.width,
        with_row(grid, row, palette, x, y, n).height == grid.height,
        with_row(grid, row, palette, x, y, n).leds.len() == grid.leds.len(),
    decreases n,
{
    if n > 0 {
        lemma_row_wraps(grid, row, palette, x, y, n - 1);
        let before = with_row(grid, row, palette, x, y, n - 1);
        match paint(palette, row[n - 1]) {
            Some(led) => {
                lemma_written_wraps(before, x + n - 1, y, led);
            },
            None => {},
        }
    }
}

/// A picture drawn one full turn further on is the same picture: an icon
/// that moves along passes the seam of the hat without a break.
pub proof fn lemma_rows_wrap(
    grid: Grid,
    rows: Seq<Seq<char>>,
    palette: Seq<LED>,
    x: int,
    y: int,
    n: int,
)
    requires
        grid.valid(),
    ensures
        with_rows(grid, rows, palette, x + grid.width, y, n) == with_rows(
            grid,
            rows,
            palette,
            x,
            y,
            n,
        ),
        with_rows(grid, rows, palette, x, y, n).width == grid.width,
        with_rows(grid, rows, palette, x, y, n).height == grid.height,
        with_rows(grid, rows, palette, x, y, n).leds.len() == grid.leds.len(),
    decreases n,
{
    if n > 0 {
        lemma_rows_wrap(grid, rows, palette, x, y, n - 1);
        let before = with_rows(grid, rows, palette, x, y, n - 1);
        lemma_row_wraps(
            before,
            rows[n - 1],
            palette,
            x,
            y + rows.len() - n,
            rows[n - 1].len() as int,
        );
    }
}

/// A picture drawn one full turn further on is the same picture.
pub proof fn lemma_icon_wraps(grid: Grid, pattern: Seq<char>, palette: Seq<LED>, x: int, y: int)
    requires
        grid.valid(),
    ensures
        with_icon(grid, pattern, palette, x + grid.width, y) == with_icon(
            grid,
            pattern,
            palette,
            x,
            y,
        ),
{
    let rows = bitmap(pattern);
    let dark = grid.filled(LED { red: 0, green: 0, blue: 0 });
    lemma_rows_wrap(dark, rows, palette, x, y, rows.len() as int);
}

/// The colour of the dot `c`.
fn color_of(colors: &Vec<LED>, c: char) -> (led: Option<LED>)
    ensures
        led == paint(colors@, c),
{
    if '0' < c && c <= '9' {
        let d: usize = (c as u32 - '0' as u32) as usize;
        if d < colors.len() {
            return Some(colors[d]);
        }
    }
    None
}

/// Reads the rows of the picture that `pattern` spells, top row first.
pub fn read_bitmap(pattern: &str) -> (rows: Vec<Vec<char>>)
    ensures
        rows_view(rows@) == bitmap(pattern@),
{
    let text = chars_of(pattern);
    let mut done: Vec<Vec<char>> = Vec::new();
    let mut row: Vec<char> = Vec::new();
    let mut i: usize = 0;
    assert(rows_view(done@) =~= Seq::<Seq<char>>::empty());
    while i < text.len()
        invariant
            i <= text.len(),
            text@ == pattern@,
            rows_view(done@) == scanned(text@, i as int).0,
            row@ == scanned(text@, i as int).1,
        decreases text.len() - i,
    {
        let c = text[i];
        if c == '\n' {
            if row.len() > 0 {
                let ghost before = done@;
                done.push(row);
                assert(rows_view(done@) =~= rows_view(before).push(row@));
            }
            row = Vec::new();
        } else if c != ' ' {
            row.push(c);
        }
        i = i + 1;
    }
    if row.len() > 0 {
        let ghost before = done@;
        done.push(row);
        assert(rows_view(done@) =~= rows_view(before).push(row@));
    }
    done
}

pub const BLACKALPS: &'static str = r#"
0000000000000011000000000000000000000000
0000000000000111100000000000000000000000
0000000000001100111100000000000000000000
0000000000011001111110000000000000000000
0000000000110001111110000000000000000000
0000000001100011111111111000000000000000
0000000011000011111111111111000000000000
0000000111110011111111111111111100000000
0000011000111111100001111110000111110000
"#;

pub const FISH: &'static str = r#"
                    00000000000000000000000
                    00000000000000000000000
                    10000000000111111000000
                    11100000011000000110000
                    10011001100000000001100
                    10000110000000000000011
                    10011001100000000001100
                    11100000011000000110000
                    00000000000111111000000
                    "#;

pub const PUMPKIN: &'static str = r#"
                    000011111111111111000
                    111110011111111001110
                    111100011111111000111
                    111111111100111111111
                    111111110000001111111
                    111110011111111001110
                    001111000000000011110
                    000001111111111110000
                    "#;

pub const PACMAN_SHUT: &'static str = r#"
                    000000001111100000000
                    000001111112111100000
                    000111111122111111000
                    001111111111111111100
                    001111111111111111100
                    000111111111111111000
                    000001111111111100000
                    000000001111100000000
                    "#;

pub const PACMAN_AJAR: &'static str = r#"
                    000000001111100000000
                    000001111112111100000
                    000111111122111111000
                    001111111111111111000
                    001111111100000000000
                    000111111111111111000
                    000001111111111100000
                    000000001111100000000
                    "#;

pub const PACMAN_OPEN: &'static str = r#"
                    000000001111100000000
                    000001111112111100000
                    000111111122111111000
                    001111111100000000000
                    001111111100000000000
                    000111111111111111000
                    000001111111111100000
                    000000001111100000000
                    "#;

pub const PACMAN_WIDE: &'static str = r#"
                    000000001111100000000
                    000001111112111100000
                    000111111122110000000
                    001111111100000000000
                    001111111100000000000
                    000111111111110000000
                    000001111111111100000
                    000000001111100000000
                    "#;

} // verus!
