use firmware::animation::{BlinkingDot, Spinner};
use firmware::display::{
    encode_u16_into, encode_u8_into, Display, POS_D4, SEG_A, SEG_POINT, SYM_DELTA, SYM_EIGHT,
    SYM_FOUR, SYM_NINE, SYM_ONE, SYM_SEVEN, SYM_SIX, SYM_THREE, SYM_TWO, SYM_ZERO,
};

#[test]
fn encode_small_numbers() {
    let mut buf = vec![0u8; 2];
    assert_eq!(encode_u8_into(&mut buf, 0), 1);
    assert_eq!(buf, vec![SYM_ZERO, 0]);

    assert_eq!(encode_u8_into(&mut buf, 7), 1);
    assert_eq!(buf, vec![SYM_SEVEN, 0]);

    assert_eq!(encode_u8_into(&mut buf, 20), 2);
    assert_eq!(buf, vec![SYM_TWO, SYM_ZERO]);

    assert_eq!(encode_u8_into(&mut buf, 99), 2);
    assert_eq!(buf, vec![SYM_NINE, SYM_NINE]);
}

#[test]
fn encode_wide_numbers() {
    let mut buf = vec![0u8; 4];
    assert_eq!(encode_u16_into(&mut buf, 0), 1);
    assert_eq!(buf, vec![SYM_ZERO, 0, 0, 0]);

    assert_eq!(encode_u16_into(&mut buf, 42), 2);
    assert_eq!(buf, vec![SYM_FOUR, SYM_TWO, 0, 0]);

    assert_eq!(encode_u16_into(&mut buf, 400), 3);
    assert_eq!(buf, vec![SYM_FOUR, SYM_ZERO, SYM_ZERO, 0]);

    assert_eq!(encode_u16_into(&mut buf, 9876), 4);
    assert_eq!(buf, vec![SYM_NINE, SYM_EIGHT, SYM_SEVEN, SYM_SIX]);
}

#[test]
fn set_number_aligns_right_with_a_point() {
    let mut d = Display::new();
    d.set_number(11);
    assert_eq!(d.buffer, vec![0, 0, SYM_ONE, SYM_ONE | SEG_POINT]);

    d.set_number(400);
    assert_eq!(d.buffer, vec![0, SYM_FOUR, SYM_ZERO, SYM_ZERO | SEG_POINT]);
}

#[test]
fn spinner_holds_each_frame_for_its_ticks() {
    let mut s = Spinner::new();
    let mut buf = vec![0u8; 4];

    s.advance(&mut buf);
    assert_eq!(buf, vec![SEG_A, 0, 0, 0]);

    // the frame stays for seven more ticks
    for _ in 0..7 {
        s.advance(&mut buf);
        assert_eq!(buf, vec![SEG_A, 0, 0, 0]);
    }

    s.advance(&mut buf);
    assert_eq!(buf, vec![0, SEG_A, 0, 0]);
}

#[test]
fn spinner_revolves_through_twelve_frames() {
    let mut s = Spinner::new();
    let mut buf = vec![0u8; 4];
    let mut frames = Vec::new();
    for tick in 0..(12 * 8) {
        s.advance(&mut buf);
        if tick % 8 == 0 {
            frames.push(buf.clone());
        }
    }
    assert_eq!(frames.len(), 12);
    for frame in &frames {
        // exactly one lit segment per frame
        assert_eq!(frame.iter().filter(|&&g| g != 0).count(), 1);
    }
    // after a full revolution the spinner starts over
    s.advance(&mut buf);
    assert_eq!(buf, vec![SEG_A, 0, 0, 0]);
}

#[test]
fn blinking_dot_appears_for_a_moment() {
    let mut b = BlinkingDot::new();
    let mut d = Display::new();

    // hidden for five hundred ticks
    for _ in 0..499 {
        b.advance(&mut d);
        assert_eq!(d.forced_output, None);
    }
    b.advance(&mut d);
    assert_eq!(d.forced_output, Some((SEG_POINT, POS_D4)));

    // visible for twenty-five ticks, then forced off again
    for _ in 0..24 {
        b.advance(&mut d);
        assert_eq!(d.forced_output, Some((SEG_POINT, POS_D4)));
    }
    b.advance(&mut d);
    assert_eq!(d.forced_output, Some((0, 0)));
}

#[test]
fn delta_separates_the_settings() {
    // the separator glyph must differ from every digit
    for digit in [
        SYM_ZERO, SYM_ONE, SYM_TWO, SYM_THREE, SYM_FOUR, SYM_SIX, SYM_SEVEN, SYM_EIGHT, SYM_NINE,
    ] {
        assert_ne!(SYM_DELTA, digit);
    }
}
