use led_hat::hat::leds::{LEDCriss, LED};

// 14
// . 11 . 12 . 13 .
// 07 . 08 . 09 . 10
// . 04 . 05 . 06 .
// 00 . 01 . 02 . 03

fn first_digits(lc: &LEDCriss) -> String {
    lc.leds()
        .iter()
        .map(|led| led.to_string().chars().nth(0).unwrap())
        .collect()
}

fn check_leds(lc: &LEDCriss, pattern: &str) {
    let pattern: String = pattern.chars().filter(|c| *c != ' ').collect();
    assert_eq!(first_digits(lc), pattern);
}

fn weight(dx: f32, dy: f32) -> f32 {
    let (mut dx, mut dy) = (dx.abs(), dy.abs());
    if dx >= 2. || dy >= 2. {
        return 0.;
    }
    if dy > dx {
        (dx, dy) = (dy, dx);
    }
    (((2. - dx).powi(2) - dy.powi(2)) / 4.).powf(0.8)
}

fn scale(c: u8, delta: f32) -> u8 {
    let res = c as f32 * delta;
    if res < 0.0 {
        0
    } else if res > 255. {
        255
    } else {
        res as u8
    }
}

fn lights_for(fx: f32, fy: f32, led: &LED) -> (i64, i64, [LED; 16]) {
    let (ix, iy) = (fx.floor() as i64, fy.floor() as i64);
    let mut lights = [LED::black(); 16];
    for k in 0..16i64 {
        let (x, y) = (ix + k / 4 - 1, iy + k % 4 - 1);
        let bright = weight(x as f32 - fx, y as f32 - fy);
        if bright >= 0. {
            lights[k as usize] = LED::from_rgb(
                scale(led.red(), bright),
                scale(led.green(), bright),
                scale(led.blue(), bright),
            );
        }
    }
    (ix, iy, lights)
}

fn splat(lc: &mut LEDCriss, fx: f32, fy: f32, led: &LED) {
    let (ix, iy, lights) = lights_for(fx, fy, led);
    lc.set(ix, iy, &lights);
}

#[test]
fn new_grid_is_dark_and_sized() {
    let leds = LEDCriss::new(15, 4);
    assert_eq!(leds.range(), (7, 4));
    assert_eq!(leds.leds().len(), 15);
    assert!(leds.leds().iter().all(|l| l.is_black()));
    assert_eq!(LEDCriss::new(16, 4).range(), (7, 4));
    assert_eq!(LEDCriss::new(17, 4).range(), (7, 5));
    assert_eq!(LEDCriss::new(300, 37).range(), (73, 9));
    assert_eq!(LEDCriss::new(0, 1).range(), (1, 0));
    assert_eq!(LEDCriss::new(5, 1).range(), (1, 5));
}

#[test]
fn set_exact_writes_the_led_of_the_cell() {
    let mut leds = LEDCriss::new(15, 4);
    let w = LED::white();
    leds.set_exact(0, 0, &w);
    check_leds(&leds, "f000 000 0000 000 0");
    leds.set_exact(6, 0, &w);
    check_leds(&leds, "f00f 000 0000 000 0");
    leds.set_exact(1, 1, &w);
    check_leds(&leds, "f00f f00 0000 000 0");
    leds.set_exact(5, 3, &w);
    check_leds(&leds, "f00f f00 0000 00f 0");
    leds.set_exact(4, 2, &LED::from_rgb(0x12, 0x34, 0x56));
    assert_eq!(leds.leds()[9], LED::from_rgb(0x12, 0x34, 0x56));
}

#[test]
fn set_exact_overwrites() {
    let mut leds = LEDCriss::new(15, 4);
    leds.set_exact(2, 0, &LED::from_rgb(200, 200, 200));
    leds.set_exact(2, 0, &LED::from_rgb(100, 1, 2));
    assert_eq!(leds.leds()[1], LED::from_rgb(100, 1, 2));
}

#[test]
fn set_exact_drops_gaps_and_rows_outside() {
    let mut leds = LEDCriss::new(15, 4);
    let w = LED::white();
    leds.set_exact(1, 0, &w);
    leds.set_exact(0, 1, &w);
    leds.set_exact(0, -1, &w);
    leds.set_exact(1, -1, &w);
    leds.set_exact(0, 4, &w);
    leds.set_exact(2, 4, &w);
    leds.set_exact(0, i64::MAX, &w);
    leds.set_exact(0, i64::MIN, &w);
    check_leds(&leds, "0000 000 0000 000 0");
}

#[test]
fn set_exact_drops_cells_past_the_last_led() {
    let mut leds = LEDCriss::new(9, 8);
    assert_eq!(leds.range(), (15, 2));
    let w = LED::white();
    leds.set_exact(1, 1, &w);
    assert_eq!(leds.leds()[8], w);
    leds.clear();
    leds.set_exact(3, 1, &w);
    leds.set_exact(13, 1, &w);
    assert!(leds.leds().iter().all(|l| l.is_black()));
}

#[test]
fn set_exact_wraps_around_the_hat() {
    let w = LED::white();
    for x in -30..30i64 {
        for y in -2..6i64 {
            let mut a = LEDCriss::new(15, 4);
            let mut b = LEDCriss::new(15, 4);
            let mut c = LEDCriss::new(15, 4);
            a.set_exact(x, y, &w);
            b.set_exact(x + 7, y, &w);
            c.set_exact(x - 14, y, &w);
            assert_eq!(a.leds(), b.leds());
            assert_eq!(a.leds(), c.leds());
        }
    }
    let mut leds = LEDCriss::new(15, 4);
    leds.set_exact(-1, 0, &w);
    check_leds(&leds, "000f 000 0000 000 0");
    leds.clear();
    leds.set_exact(7, 0, &w);
    check_leds(&leds, "f000 000 0000 000 0");
    leds.clear();
    leds.set_exact(i64::MIN, 0, &w);
    leds.set_exact(i64::MAX, 1, &w);
    assert_eq!(i64::MIN.rem_euclid(7), 6);
    assert_eq!(i64::MAX.rem_euclid(7), 0);
    check_leds(&leds, "000f 000 0000 000 0");
}

#[test]
fn fill_and_clear() {
    let mut leds = LEDCriss::new(15, 4);
    leds.fill(&LED::from_rgb(1, 2, 3));
    assert_eq!(leds.leds().len(), 15);
    assert!(leds.leds().iter().all(|l| *l == LED::from_rgb(1, 2, 3)));
    assert_eq!(leds.frame(), vec![LED::from_rgb(1, 2, 3); 15]);
    leds.clear();
    assert_eq!(leds.leds().len(), 15);
    assert!(leds.leds().iter().all(|l| l.is_black()));
    assert_eq!(leds.range(), (7, 4));
}

#[test]
fn brightness_dims_every_led() {
    let mut leds = LEDCriss::new(15, 4);
    leds.fill(&LED::from_rgb(255, 128, 3));
    leds.set_exact(0, 0, &LED::from_rgb(10, 20, 31));
    leds.brightness(1, 2);
    assert_eq!(leds.leds()[0], LED::from_rgb(5, 10, 15));
    assert!(leds.leds()[1..].iter().all(|l| *l == LED::from_rgb(127, 64, 1)));
}

#[test]
fn splat_on_an_led_lights_it_alone() {
    let mut leds = LEDCriss::new(15, 4);
    let w = LED::white();
    splat(&mut leds, 1., 1., &w);
    check_leds(&leds, "0000 f00 0000 000 0");
    assert_eq!(leds.leds()[4], LED::white());
    for (i, led) in leds.leds().iter().enumerate() {
        if i != 4 {
            assert!(led.is_black());
        }
    }
}

#[test]
fn splat_outside_the_rows_is_lost() {
    let mut leds = LEDCriss::new(15, 4);
    let w = LED::white();
    splat(&mut leds, 2., 6., &w);
    check_leds(&leds, "0000 000 0000 000 0");
    splat(&mut leds, 2., -3., &w);
    check_leds(&leds, "0000 000 0000 000 0");
}

#[test]
fn splat_spreads_over_the_neighbours() {
    let mut leds = LEDCriss::new(15, 4);
    let w = LED::white();
    // A light in the gap at (3, 2) is shared by the four LEDs around it.
    splat(&mut leds, 3., 2., &w);
    let part = scale(255, 0.25f32.powf(0.8));
    assert_eq!(part, 84);
    let lit = LED::from_rgb(part, part, part);
    for (i, led) in leds.leds().iter().enumerate() {
        if i == 5 || i == 8 || i == 9 || i == 12 {
            assert_eq!(*led, lit);
        } else {
            assert!(led.is_black());
        }
    }
}

#[test]
fn splat_adds_to_what_is_there() {
    let mut leds = LEDCriss::new(15, 4);
    leds.fill(&LED::from_rgb(200, 1, 0));
    splat(&mut leds, 3., 2., &LED::from_rgb(255, 255, 0));
    assert_eq!(leds.leds()[5], LED::from_rgb(255, 85, 0));
    assert_eq!(leds.leds()[0], LED::from_rgb(200, 1, 0));
}

#[test]
fn splat_reaches_across_the_seam() {
    let mut leds = LEDCriss::new(15, 4);
    let w = LED::white();
    splat(&mut leds, 0., 0., &w);
    // The LED at the far end of the bottom row is a neighbour of the first.
    check_leds(&leds, "f005 000 0000 000 0");
}

#[test]
fn splat_wraps_around_the_hat() {
    let w = LED::from_rgb(255, 200, 100);
    let mut fy = -2.0f32;
    while fy < 6.0 {
        let mut fx = -9.0f32;
        while fx < 9.0 {
            let (ix, iy, lights) = lights_for(fx, fy, &w);
            let mut a = LEDCriss::new(15, 4);
            let mut b = LEDCriss::new(15, 4);
            let mut c = LEDCriss::new(15, 4);
            a.set(ix, iy, &lights);
            b.set(ix + 7, iy, &lights);
            c.set(ix - 21, iy, &lights);
            assert_eq!(a.leds(), b.leds());
            assert_eq!(a.leds(), c.leds());
            fx += 0.3;
        }
        fy += 0.7;
    }
}

#[test]
fn lights_pile_up_on_a_narrow_hat() {
    // One cell wide: every column is the same column.
    let mut leds = LEDCriss::new(3, 1);
    assert_eq!(leds.range(), (1, 3));
    let mut lights = [LED::black(); 16];
    for k in 0..16 {
        lights[k] = LED::from_rgb(k as u8 + 1, 100, 0);
    }
    leds.set(0, 1, &lights);
    // Row 0 takes lights 0, 4, 8, 12; row 2 takes lights 2, 6, 10, 14.
    assert_eq!(leds.leds()[0], LED::from_rgb(1 + 5 + 9 + 13, 255, 0));
    assert_eq!(leds.leds()[1], LED::from_rgb(3 + 7 + 11 + 15, 255, 0));
    assert_eq!(leds.leds()[2], LED::black());
}

#[test]
fn set_places_each_light_on_its_cell() {
    let mut leds = LEDCriss::new(15, 4);
    let mut lights = [LED::black(); 16];
    for k in 0..16 {
        lights[k] = LED::from_rgb(k as u8 + 1, 0, 0);
    }
    leds.set(3, 1, &lights);
    // Columns 2 to 5, rows 0 to 3.
    let reds: Vec<u8> = leds.leds().iter().map(|l| l.red()).collect();
    //                  00 01 02 03 04 05  06 07 08 09  10 11 12  13 14
    assert_eq!(reds, vec![0, 1, 9, 0, 0, 6, 14, 0, 3, 11, 0, 0, 8, 16, 0]);
}

#[test]
fn set_char_draws_the_glyph() {
    let mut leds = LEDCriss::new(300, 37);
    let on = LED::white();
    let off = LED::from_rgb(1, 1, 1);
    leds.fill(&LED::from_rgb(9, 9, 9));
    leds.set_char(0, '1', &on, &off);
    // The rows of '1', top row first, leftmost dot in bit 0.
    let rows: [u8; 8] = [0x0C, 0x0E, 0x0C, 0x0C, 0x0C, 0x0C, 0x3F, 0x00];
    for y in 0..9usize {
        for x in 0..73usize {
            if (x + y) % 2 != 0 {
                continue;
            }
            let index = (y * 73 + x) / 2;
            if index >= 300 {
                continue;
            }
            let led = leds.leds()[index];
            if x < 8 && y < 8 {
                let set = (rows[7 - y] >> x) & 1 == 1;
                assert_eq!(led, if set { on } else { off });
            } else {
                assert_eq!(led, LED::from_rgb(9, 9, 9));
            }
        }
    }
}

#[test]
fn set_string_steps_eight_columns_and_skips_unknown() {
    let on = LED::white();
    let off = LED::black();
    let ground = LED::from_rgb(9, 9, 9);
    let mut text = LEDCriss::new(300, 37);
    text.fill(&ground);
    text.set_string(3, "1x:", &on, &off);
    let mut by_char = LEDCriss::new(300, 37);
    by_char.fill(&ground);
    by_char.set_char(3, '1', &on, &off);
    by_char.set_char(19, ':', &on, &off);
    assert_eq!(text.leds(), by_char.leds());
    // The columns of the unknown character keep the ground.
    for y in 0..8usize {
        for x in 11..19usize {
            if (x + y) % 2 == 0 {
                assert_eq!(text.leds()[(y * 73 + x) / 2], ground);
            }
        }
    }
    let mut none = LEDCriss::new(300, 37);
    none.fill(&ground);
    none.set_string(0, "", &on, &off);
    none.set_char(0, 'a', &on, &off);
    assert!(none.leds().iter().all(|l| *l == ground));
}

#[test]
fn splat_patterns_on_whole_cells() {
    let mut leds = LEDCriss::new(15, 4);
    let w = &LED::white();
    splat(&mut leds, 1., 1., w);
    check_leds(&leds, "0000 f00 0000 000 0");
    leds.clear();

    // Below the first row only the far end of the bottom row is a neighbour.
    splat(&mut leds, -1., -1., w);
    check_leds(&leds, "0005 000 0000 000 0");
    splat(&mut leds, 0., 0., w);
    check_leds(&leds, "f00a 000 0000 000 0");
    splat(&mut leds, 1., 0., w);
    check_leds(&leds, "f50a 500 0000 000 0");
    leds.clear();

    splat(&mut leds, 0., 1., w);
    check_leds(&leds, "5000 500 5000 000 0");
    leds.clear();

    splat(&mut leds, 2., 4., w);
    check_leds(&leds, "0000 000 0000 000 0");
}

#[test]
fn splat_patterns_between_cells() {
    let mut leds = LEDCriss::new(15, 4);
    let w = &LED::white();
    splat(&mut leds, 2.1, 2.1, w);
    check_leds(&leds, "0000 000 0e00 020 0");
    assert_eq!(leds.leds()[8].red(), 234);
    assert_eq!(leds.leds()[12].red(), 40);

    leds.clear();
    splat(&mut leds, 3.1, 2.1, w);
    check_leds(&leds, "0000 040 0460 060 0");
    assert_eq!(leds.leds()[5].red(), 70);
    assert_eq!(leds.leds()[9].red(), 97);

    leds.clear();
    splat(&mut leds, 3.5, 2.5, w);
    check_leds(&leds, "0000 000 0090 090 0");
    assert_eq!(leds.leds()[9], LED::from_rgb(146, 146, 146));
}

#[test]
fn splat_spreads_about_one_light() {
    // Well inside a large grid, the LEDs around a point take about one
    // light between them: exactly one on an LED, up to a third more between
    // LEDs, where each share is raised by the power in the weight.
    let light = LED::from_rgb(200, 0, 0);
    let mut fy = 3.0f32;
    while fy < 6.0 {
        let mut fx = 10.0f32;
        while fx < 14.0 {
            let mut leds = LEDCriss::new(3000, 37);
            splat(&mut leds, fx, fy, &light);
            let sum: u32 = leds.leds().iter().map(|l| l.red() as u32).sum();
            let lit = leds.leds().iter().filter(|l| !l.is_black()).count();
            assert!(sum >= 196 && sum <= 270, "{fx} {fy} {sum}");
            assert!(lit >= 1 && lit <= 4, "{fx} {fy} {lit}");
            fx += 0.13;
        }
        fy += 0.17;
    }
    let mut leds = LEDCriss::new(3000, 37);
    splat(&mut leds, 12., 4., &light);
    assert_eq!(leds.leds().iter().map(|l| l.red() as u32).sum::<u32>(), 200);
}
