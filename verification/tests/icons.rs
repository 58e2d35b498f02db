use led_hat::hat::icon::{
    read_bitmap, Icon, IconType, BLACKALPS, FISH, PACMAN_AJAR, PACMAN_OPEN, PACMAN_SHUT,
    PACMAN_WIDE, PUMPKIN,
};
use led_hat::hat::leds::LED;

const WIDTH: i64 = 73;
const HEIGHT: i64 = 9;
const TOTAL: usize = 300;

/// The picture as the LEDs of the hat should show it, worked out cell by
/// cell.
fn picture(pattern: &str, colors: &[LED], pos_x: i64, pos_y: i64) -> Vec<LED> {
    let lines: Vec<String> = pattern
        .split("\n")
        .map(|l| l.replace(" ", ""))
        .filter(|l| l.len() > 0)
        .collect();
    let mut leds = vec![LED::black(); TOTAL];
    for (r, line) in lines.iter().enumerate() {
        for (c, ch) in line.chars().enumerate() {
            let d = match ch.to_digit(10) {
                Some(d) if d > 0 && (d as usize) < colors.len() => d as usize,
                _ => continue,
            };
            let x = (pos_x + c as i64).rem_euclid(WIDTH);
            let y = pos_y + (lines.len() - 1 - r) as i64;
            if y < 0 || y >= HEIGHT || (x + y) % 2 != 0 {
                continue;
            }
            let index = ((y * WIDTH + x) / 2) as usize;
            if index < TOTAL {
                leds[index] = colors[d];
            }
        }
    }
    leds
}

#[test]
fn test_draw_led() {}

#[test]
fn bitmaps_are_read_row_by_row() {
    let rows = read_bitmap("\n  01 2\n\n   \n3\n  ");
    assert_eq!(rows, vec![vec!['0', '1', '2'], vec!['3']]);
    assert_eq!(read_bitmap(""), Vec::<Vec<char>>::new());
    assert_eq!(read_bitmap("12"), vec![vec!['1', '2']]);
    assert_eq!(read_bitmap("1\n"), vec![vec!['1']]);
    assert_eq!(read_bitmap("\t1"), vec![vec!['\t', '1']]);
    for (pattern, height, width) in [
        (BLACKALPS, 9, 40),
        (FISH, 9, 23),
        (PUMPKIN, 8, 21),
        (PACMAN_SHUT, 8, 21),
        (PACMAN_AJAR, 8, 21),
        (PACMAN_OPEN, 8, 21),
        (PACMAN_WIDE, 8, 21),
    ] {
        let rows = read_bitmap(pattern);
        assert_eq!(rows.len(), height);
        assert!(rows.iter().all(|row| row.len() == width));
    }
}

#[test]
fn new_icon_is_the_fish() {
    let icon = Icon::new(TOTAL, 37);
    assert_eq!(icon.get_icon(), IconType::Fish);
    let mut icon = icon;
    icon.set_icon(IconType::Pumpkin);
    assert_eq!(icon.get_icon(), IconType::Pumpkin);
}

#[test]
fn draw_icon_stands_the_picture_upright() {
    let mut icon = Icon::new(TOTAL, 37);
    let red = LED::from_rgb(9, 0, 0);
    let blue = LED::from_rgb(0, 0, 9);
    let colors = vec![LED::white(), red, blue];
    icon.draw_icon(0, 0, "100\n020\n001", &colors);
    icon.set_icon(IconType::Empty);
    let leds = icon.get_leds(0, 0);
    // Top row of the text is row 2 of the grid.
    assert_eq!(leds[((2 * 73 + 0) / 2) as usize], red);
    assert_eq!(leds[((1 * 73 + 1) / 2) as usize], blue);
    assert_eq!(leds[((0 * 73 + 2) / 2) as usize], red);
    assert_eq!(leds.iter().filter(|l| !l.is_black()).count(), 3);
    assert_eq!(leds, picture("100\n020\n001", &colors, 0, 0));
}

#[test]
fn draw_icon_skips_what_is_no_colour() {
    let mut icon = Icon::new(TOTAL, 37);
    icon.set_icon(IconType::Empty);
    let colors = vec![LED::white(), LED::from_rgb(5, 5, 5)];
    // 0 is see-through, 2 is past the palette, letters are no digits.
    icon.draw_icon(0, 0, "0 2 a 9 x", &colors);
    assert!(icon.get_leds(0, 0).iter().all(|l| l.is_black()));
    icon.draw_icon(0, 0, "1", &vec![]);
    assert!(icon.get_leds(0, 0).iter().all(|l| l.is_black()));
    icon.draw_icon(0, 0, "1", &colors);
    assert_eq!(icon.get_leds(0, 0)[0], LED::from_rgb(5, 5, 5));
}

#[test]
fn draw_icon_clears_first() {
    let mut icon = Icon::new(TOTAL, 37);
    icon.set_icon(IconType::Empty);
    let colors = vec![LED::black(), LED::white()];
    icon.draw_icon(0, 0, "1", &colors);
    icon.draw_icon(2, 0, "1", &colors);
    let leds = icon.get_leds(0, 0);
    assert_eq!(leds[0], LED::black());
    assert_eq!(leds[1], LED::white());
}

#[test]
fn draw_icon_wraps_and_moves() {
    let colors = vec![LED::black(), LED::from_rgb(1, 2, 3)];
    for (x, y) in [(0, 0), (5, 0), (72, 0), (73, 0), (-1, 0), (-200, 3), (60, -2), (10, 100)] {
        let mut icon = Icon::new(TOTAL, 37);
        icon.set_icon(IconType::Empty);
        icon.draw_icon(x, y, FISH, &colors);
        assert_eq!(icon.get_leds(0, 0), picture(FISH, &colors, x, y));
        let mut turned = Icon::new(TOTAL, 37);
        turned.set_icon(IconType::Empty);
        turned.draw_icon(x + 73, y, FISH, &colors);
        assert_eq!(turned.get_leds(0, 0), picture(FISH, &colors, x, y));
    }
    let mut far = Icon::new(TOTAL, 37);
    far.set_icon(IconType::Empty);
    far.draw_icon(i64::MAX, i64::MIN, FISH, &colors);
    assert!(far.get_leds(0, 0).iter().all(|l| l.is_black()));
    far.draw_icon(i64::MIN, i64::MAX, FISH, &colors);
    assert!(far.get_leds(0, 0).iter().all(|l| l.is_black()));
}

#[test]
fn empty_icon_leaves_the_leds() {
    let mut icon = Icon::new(TOTAL, 37);
    let first = icon.get_leds(0, 0);
    assert_eq!(first.len(), TOTAL);
    icon.set_icon(IconType::Empty);
    assert_eq!(icon.get_leds(123456, 2), first);
}

#[test]
fn fish_swims_two_columns_a_second() {
    let colors = [LED::black(), LED::from_rgb(0x20, 0x40, 0x40)];
    let mut icon = Icon::new(TOTAL, 37);
    for (time, offset) in [(0u128, 0i64), (499, 0), (500, 1), (1000, 2), (36999, 73), (37000, 0)] {
        assert_eq!(icon.get_leds(time, 0), picture(FISH, &colors, offset, 0));
        // The fish does not sway.
        assert_eq!(icon.get_leds(time, 3), picture(FISH, &colors, offset, 0));
    }
    assert_eq!(
        icon.get_leds(u128::MAX, 0),
        picture(FISH, &colors, ((u128::MAX % 37000) / 500) as i64, 0)
    );
}

#[test]
fn mountains_pass_by() {
    let colors = [LED::black(), LED::from_rgb(0x10, 0x30, 0x30)];
    let mut icon = Icon::new(TOTAL, 37);
    icon.set_icon(IconType::BlackAlps);
    for (time, offset) in [(0u128, 0i64), (20000, 40), (36999, 73)] {
        assert_eq!(icon.get_leds(time, -2), picture(BLACKALPS, &colors, offset, 0));
    }
}

#[test]
fn pumpkin_sways_around_column_twenty() {
    let colors = [LED::black(), LED::from_rgb(0x40, 0x20, 0)];
    let mut icon = Icon::new(TOTAL, 37);
    icon.set_icon(IconType::Pumpkin);
    for sway in [-3i64, -1, 0, 2, 3, 100, i64::MAX, i64::MIN] {
        let at = (20 + sway as i128).rem_euclid(73) as i64;
        assert_eq!(icon.get_leds(0, sway), picture(PUMPKIN, &colors, at, 0));
        assert_eq!(icon.get_leds(99999, sway), picture(PUMPKIN, &colors, at, 0));
    }
}

#[test]
fn pacman_chews_as_it_goes() {
    let colors = [
        LED::black(),
        LED::from_rgb(0x30, 0x30, 0x10),
        LED::from_rgb(0xa0, 0x50, 0x50),
    ];
    let frames = [PACMAN_SHUT, PACMAN_AJAR, PACMAN_OPEN, PACMAN_WIDE];
    let mut icon = Icon::new(TOTAL, 37);
    icon.set_icon(IconType::Pacman);
    for (time, frame, offset) in [
        (0u128, 3usize, 0i64),
        (99, 3, 0),
        (100, 2, 0),
        (200, 1, 1),
        (300, 0, 1),
        (400, 1, 2),
        (500, 2, 2),
        (600, 3, 3),
        (700, 3, 3),
        (800, 2, 4),
        (73999, 1, 369),
        (74000, 3, 0),
    ] {
        assert_eq!(icon.get_leds(time, 1), picture(frames[frame], &colors, offset, 0));
    }
    // The eye is drawn in the third colour.
    let leds = icon.get_leds(0, 0);
    assert!(leds.contains(&LED::from_rgb(0xa0, 0x50, 0x50)));
}

#[test]
fn test_bar_is_a_column() {
    let mut icon = Icon::new(TOTAL, 37);
    icon.set_icon(IconType::Test);
    let red = LED::from_rgb(0x80, 0, 0);
    for sway in [-3i64, 0, 3] {
        let leds = icon.get_leds(5, sway);
        let x = 40 + sway;
        let mut expected = vec![LED::black(); TOTAL];
        for y in 0..HEIGHT {
            let index = ((y * WIDTH + x) / 2) as usize;
            if (x + y) % 2 == 0 && index < TOTAL {
                expected[index] = red;
            }
        }
        assert_eq!(leds, expected);
        assert!(leds.iter().filter(|l| **l == red).count() >= 4);
    }
}
