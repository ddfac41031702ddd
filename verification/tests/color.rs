use wutengine::color::hex;

#[test]
fn long_hex_codes() {
    assert_eq!(Some((255, 136, 0, 255)), hex("#ff8800"));
    assert_eq!(Some((255, 136, 0, 204)), hex("FF8800CC"));
    assert_eq!(Some((1, 35, 69, 103)), hex("  #01234567\n").or(hex("01234567")));
    assert_eq!(Some((1, 35, 69, 103)), hex("#01234567 \t"));
}

#[test]
fn short_hex_codes_take_one_digit_per_component() {
    assert_eq!(Some((15, 15, 15, 255)), hex("#fff"));
    assert_eq!(Some((15, 8, 0, 12)), hex("f80c"));
}

#[test]
fn invalid_hex_codes() {
    assert_eq!(None, hex(""));
    assert_eq!(None, hex("#"));
    assert_eq!(None, hex("#12345"));
    assert_eq!(None, hex("#1234567"));
    assert_eq!(None, hex("#gg0000"));
    assert_eq!(None, hex("#ff00é0"));
    assert_eq!(None, hex("##fff"));
    // The `#` is stripped before whitespace is trimmed
    assert_eq!(None, hex(" #fff"));
}

#[test]
fn sign_before_a_digit_is_accepted() {
    assert_eq!(Some((15, 15, 15, 255)), hex("+f+f+f"));
    assert_eq!(None, hex("-f-f-f"));
}
