use led_hat::hat::countdown::Countdown;
use led_hat::hat::leds::{LEDCriss, LED};

fn frame_with(text: &str) -> Vec<LED> {
    let mut leds = LEDCriss::new(300, 37);
    leds.fill(&LED::from_rgb(0, 0x60, 0));
    leds.set_string(0, text, &LED::from_rgb(0x80, 0x80, 0x80), &LED::black());
    leds.brightness(1, 2);
    leds.frame()
}

#[test]
fn clock_shows_minutes_and_seconds() {
    assert_eq!(Countdown::clock(125), "02:05");
    assert_eq!(Countdown::clock(0), "00:00");
    assert_eq!(Countdown::clock(9), "00:09");
    assert_eq!(Countdown::clock(59), "00:59");
    assert_eq!(Countdown::clock(60), "01:00");
    assert_eq!(Countdown::clock(599), "09:59");
    assert_eq!(Countdown::clock(600), "10:00");
    assert_eq!(Countdown::clock(3600), "60:00");
    assert_eq!(Countdown::clock(5999), "99:59");
    assert_eq!(Countdown::clock(6000), "100:00");
    assert_eq!(Countdown::clock(754321), "12572:01");
    assert_eq!(
        Countdown::clock(u128::MAX),
        format!("{:02}:{:02}", u128::MAX / 60, u128::MAX % 60)
    );
}

#[test]
fn time_left_is_written_on_green() {
    let mut countdown = Countdown::new(300, 37);
    countdown.set_countdown(200_000);
    let alarm = LED::from_rgb(200, 100, 100);
    let leds = countdown.get_leds(75_000, &alarm);
    assert_eq!(leds, frame_with("02:05"));
    // Whole seconds: 125.999 s still reads 02:05.
    assert_eq!(countdown.get_leds(74_001, &alarm), frame_with("02:05"));
    assert_eq!(countdown.get_leds(74_000, &alarm), frame_with("02:06"));
    // Right of the text the ground shows, at half its brightness.
    assert_eq!(leds[(0 * 73 + 40) / 2], LED::from_rgb(0, 0x30, 0));
    // The top left dot of the first digit is clear, the one right of it set.
    assert_eq!(leds[(7 * 73 + 1) / 2], LED::from_rgb(0x40, 0x40, 0x40));
    assert_eq!(leds[(6 * 73 + 2) / 2], LED::black());
}

#[test]
fn the_end_itself_still_counts() {
    let mut countdown = Countdown::new(300, 37);
    countdown.set_countdown(5000);
    let alarm = LED::from_rgb(200, 100, 50);
    assert_eq!(countdown.get_leds(5000, &alarm), frame_with("00:00"));
    assert_eq!(countdown.get_leds(4001, &alarm), frame_with("00:00"));
    assert_eq!(countdown.get_leds(4000, &alarm), frame_with("00:01"));
    assert_eq!(countdown.get_leds(5001, &alarm), vec![LED::from_rgb(100, 50, 25); 300]);
}

#[test]
fn after_the_end_the_alarm_shows() {
    let mut countdown = Countdown::new(300, 37);
    assert_eq!(Countdown::alarm(), LED::from_rgb(0xff, 0x80, 0x80));
    let leds = countdown.get_leds(1, &Countdown::alarm());
    assert_eq!(leds, vec![LED::from_rgb(0x7f, 0x40, 0x40); 300]);
    let dark = countdown.get_leds(u128::MAX, &LED::black());
    assert_eq!(dark, vec![LED::black(); 300]);
    let odd = countdown.get_leds(2, &LED::from_rgb(1, 3, 255));
    assert_eq!(odd, vec![LED::from_rgb(0, 1, 127); 300]);
}

#[test]
fn minutes_are_rounded_down() {
    let mut countdown = Countdown::new(300, 37);
    countdown.set_countdown(1_000_000);
    assert_eq!(countdown.get_minutes(0), 16);
    assert_eq!(countdown.get_minutes(40_000), 16);
    assert_eq!(countdown.get_minutes(40_001), 15);
    assert_eq!(countdown.get_minutes(940_001), 0);
    assert_eq!(countdown.get_minutes(1_000_000), 0);
    assert_eq!(countdown.get_minutes(1_000_001), 0);
    assert_eq!(countdown.get_minutes(u128::MAX), 0);
}

#[test]
fn long_times_run_around_the_hat() {
    let mut countdown = Countdown::new(300, 37);
    countdown.set_countdown(6_000_000_000);
    let leds = countdown.get_leds(0, &LED::black());
    assert_eq!(leds, frame_with("100000:00"));
    assert_eq!(leds.len(), 300);
}
