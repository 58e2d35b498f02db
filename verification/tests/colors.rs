use led_hat::hat::leds::{bytes_of, hex_of, LED};

#[test]
fn white_and_black() {
    assert_eq!(LED::white(), LED::from_rgb(255, 255, 255));
    assert_eq!(LED::black(), LED::from_rgb(0, 0, 0));
    assert!(LED::black().is_black());
    assert!(!LED::white().is_black());
    assert!(!LED::from_rgb(0, 0, 1).is_black());
}

#[test]
fn channels_are_read_back() {
    let c = LED::from_rgb(1, 2, 3);
    assert_eq!((c.red(), c.green(), c.blue()), (1, 2, 3));
}

#[test]
fn add_stops_at_full_intensity() {
    let mut c = LED::from_rgb(200, 10, 255);
    c.add(&LED::from_rgb(100, 20, 1));
    assert_eq!(c, LED::from_rgb(255, 30, 255));
    let mut d = LED::from_rgb(254, 0, 100);
    d.add(&LED::from_rgb(1, 0, 155));
    assert_eq!(d, LED::from_rgb(255, 0, 255));
    let mut e = LED::from_rgb(7, 8, 9);
    e.add(&LED::black());
    assert_eq!(e, LED::from_rgb(7, 8, 9));
}

#[test]
fn from_hex_reads_six_digits() {
    assert_eq!(LED::from_hex("ffffff"), LED::white());
    assert_eq!(LED::from_hex("000000"), LED::black());
    assert_eq!(LED::from_hex("ff8000"), LED::from_rgb(255, 128, 0));
    assert_eq!(LED::from_hex("0a1B2c"), LED::from_rgb(0x0a, 0x1b, 0x2c));
    assert_eq!(LED::from_hex("ABCDEF"), LED::from_rgb(0xab, 0xcd, 0xef));
}

#[test]
fn from_hex_falls_back_to_white() {
    assert_eq!(LED::from_hex(""), LED::white());
    assert_eq!(LED::from_hex("12345"), LED::white());
    assert_eq!(LED::from_hex("1234567"), LED::white());
    assert_eq!(LED::from_hex("12345g"), LED::white());
    assert_eq!(LED::from_hex("zz0000"), LED::white());
    assert_eq!(LED::from_hex("+1+2+3"), LED::white());
    assert_eq!(LED::from_hex("12 456"), LED::white());
    assert_eq!(LED::from_hex("a\u{e9}123"), LED::white());
    assert_eq!(LED::from_hex("\u{e9}12345"), LED::white());
}

#[test]
fn to_string_is_six_lower_case_digits() {
    assert_eq!(LED::from_rgb(0, 0, 0).to_string(), "000000");
    assert_eq!(LED::from_rgb(255, 255, 255).to_string(), "ffffff");
    assert_eq!(LED::from_rgb(1, 0xab, 0xf0).to_string(), "01abf0");
    assert_eq!(LED::from_rgb(0x9a, 0x0f, 0x10).to_string(), "9a0f10");
}

#[test]
fn hex_round_trip_holds_for_every_byte() {
    for v in 0..=255u8 {
        let c = LED::from_rgb(v, 255 - v, v ^ 0x5a);
        assert_eq!(LED::from_hex(&c.to_string()), c);
        assert_eq!(c.to_string().len(), 6);
    }
}

#[test]
fn from_hue_walks_the_wheel() {
    assert_eq!(LED::from_hue(0), LED::from_rgb(255, 128, 64));
    assert_eq!(LED::from_hue(1), LED::from_rgb(253, 130, 64));
    assert_eq!(LED::from_hue(63), LED::from_rgb(129, 254, 64));
    assert_eq!(LED::from_hue(64), LED::from_rgb(64, 255, 128));
    assert_eq!(LED::from_hue(100), LED::from_rgb(64, 183, 200));
    assert_eq!(LED::from_hue(128), LED::from_rgb(128, 64, 255));
    assert_eq!(LED::from_hue(191), LED::from_rgb(254, 64, 129));
    assert_eq!(LED::from_hue(192), LED::white());
    assert_eq!(LED::from_hue(255), LED::white());
}

#[test]
fn brightness_scales_and_rounds_down() {
    let c = LED::from_rgb(255, 128, 3);
    assert_eq!(c.brightness(1, 2), LED::from_rgb(127, 64, 1));
    assert_eq!(c.brightness(0, 5), LED::black());
    assert_eq!(c.brightness(1, 1), c);
    assert_eq!(c.brightness(3, 1), LED::from_rgb(255, 255, 9));
    assert_eq!(c.brightness(u32::MAX, 1), LED::from_rgb(255, 255, 255));
    assert_eq!(c.brightness(1, u32::MAX), LED::black());
    assert_eq!(LED::from_rgb(10, 20, 30).brightness(2, 3), LED::from_rgb(6, 13, 20));
}

#[test]
fn mean_averages_each_channel() {
    let c = LED::from_rgb(10, 0, 255);
    assert_eq!(c.mean(vec![]), c);
    assert_eq!(c.mean(vec![LED::from_rgb(20, 1, 255)]), LED::from_rgb(15, 0, 255));
    assert_eq!(
        c.mean(vec![LED::from_rgb(20, 1, 0), LED::from_rgb(31, 1, 0)]),
        LED::from_rgb(20, 0, 85)
    );
}

#[test]
fn xor_flips_bits() {
    let mut c = LED::from_rgb(0b1100, 0xff, 0);
    c.xor(LED::from_rgb(0b1010, 0xff, 0x42));
    assert_eq!(c, LED::from_rgb(0b0110, 0, 0x42));
}

#[test]
fn frames_are_written_out_in_order() {
    let frame = vec![LED::from_rgb(1, 2, 3), LED::from_rgb(0xaa, 0xbb, 0xcc)];
    assert_eq!(hex_of(&frame), "010203aabbcc");
    assert_eq!(bytes_of(&frame), vec![1, 2, 3, 0xaa, 0xbb, 0xcc]);
    assert_eq!(hex_of(&vec![]), "");
    assert_eq!(bytes_of(&vec![]), Vec::<u8>::new());
}
