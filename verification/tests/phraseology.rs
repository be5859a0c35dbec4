use r_flightsim::speech::{
    clock_position, compass_direction, digit_word, speak_altimeter, speak_altitude, speak_decimal,
    speak_digits, speak_frequency, speak_heading, speak_runway, speak_squawk, speak_two_digit,
    speak_wind,
};

#[test]
fn digit_words_follow_faa_convention() {
    assert_eq!(digit_word(0), "zero");
    assert_eq!(digit_word(9), "niner");
    assert_eq!(digit_word(10), "?");
}

#[test]
fn speak_digits_skips_non_digits() {
    assert_eq!(speak_digits("2451"), "two-four-five-one");
    assert_eq!(speak_digits("a1-b9"), "one-niner");
    assert_eq!(speak_digits(""), "");
    assert_eq!(speak_digits("x"), "");
}

#[test]
fn squawk_is_zero_padded_to_four_digits() {
    assert_eq!(speak_squawk(2451), "two-four-five-one");
    assert_eq!(speak_squawk(7), "zero-zero-zero-seven");
    assert_eq!(speak_squawk(12345), "one-two-three-four-five");
}

#[test]
fn altitude_phrases() {
    assert_eq!(speak_altitude(24), "two thousand four hundred");
    assert_eq!(speak_altitude(0), "field elevation");
    assert_eq!(speak_altitude(-5), "field elevation");
    assert_eq!(speak_altitude(5), "five hundred");
    assert_eq!(speak_altitude(30), "three thousand");
    assert_eq!(speak_altitude(15), "one thousand five hundred");
    assert_eq!(speak_altitude(125), "twelve thousand five hundred");
    assert_eq!(speak_altitude(130), "? thousand");
    assert_eq!(speak_altitude(99), "niner thousand niner hundred");
}

#[test]
fn heading_digit_by_digit() {
    assert_eq!(speak_heading(280), "two-eight-zero");
    assert_eq!(speak_heading(360), "three-six-zero");
    assert_eq!(speak_heading(5), "zero-zero-five");
}

#[test]
fn runway_designators() {
    assert_eq!(speak_runway("28L"), "two-eight left");
    assert_eq!(speak_runway("30"), "three-zero");
    assert_eq!(speak_runway("9X C"), "niner center");
    assert_eq!(speak_runway("01R"), "zero-one right");
}

#[test]
fn two_digit_numbers() {
    assert_eq!(speak_two_digit(35), "thirty-five");
    assert_eq!(speak_two_digit(20), "twenty");
    assert_eq!(speak_two_digit(7), "seven");
    assert_eq!(speak_two_digit(0), "zero");
    assert_eq!(speak_two_digit(13), "thirteen");
    assert_eq!(speak_two_digit(99), "ninety-niner");
    assert_eq!(speak_two_digit(105), "?-five");
}

#[test]
fn frequencies_informal_and_full() {
    assert_eq!(speak_frequency(12050), "one-two-zero-point-five");
    assert_eq!(speak_frequency(11830), "one-one-eight-point-three");
    assert_eq!(speak_frequency(12400), "one-two-four-point-zero");
    assert_eq!(speak_frequency(13565), "thirty-five sixty-five");
    assert_eq!(speak_frequency(12175), "twenty-one seventy-five");
    assert_eq!(speak_frequency(10820), "one-zero-eight-point-two");
    assert_eq!(speak_frequency(10825), "one-zero-eight-point-two");
    assert_eq!(speak_frequency(10835), "one-zero-eight-point-four");
    assert_eq!(speak_frequency(10826), "one-zero-eight-point-three");
    assert_eq!(speak_frequency(13700), "one-three-seven-point-zero");
    assert_eq!(speak_frequency(13796), "one-three-eight-point-zero");
    assert_eq!(speak_frequency(11996), "nineteen ninety-six");
    assert_eq!(speak_decimal("1.2.3"), "one-point-two");
}

#[test]
fn fixed_wind_and_altimeter() {
    assert_eq!(speak_wind(), "two-seven-zero at eight");
    assert_eq!(speak_altimeter(), "three-zero-one-niner");
}

#[test]
fn compass_and_clock() {
    assert_eq!(compass_direction(0), "north");
    assert_eq!(compass_direction(22), "north");
    assert_eq!(compass_direction(23), "northeast");
    assert_eq!(compass_direction(90), "east");
    assert_eq!(compass_direction(180), "south");
    assert_eq!(compass_direction(300), "northwest");
    assert_eq!(compass_direction(338), "north");
    assert_eq!(compass_direction(400), "north");
    assert_eq!(clock_position(0), "twelve o'clock");
    assert_eq!(clock_position(3), "three o'clock");
    assert_eq!(clock_position(12), "twelve o'clock");
    assert_eq!(clock_position(13), "one o'clock");
}
