use pass_rofi_gui::otp::format_otp;

#[test]
fn it_works() {
    assert_eq!(2 + 2, 4);
}

#[test]
fn test_format_otp_6_digits() {
    let tests = [
        (12345678, "12345678"),
        (123456, "123456"),
        (1234, "001234"),
        (1, "000001"),
        (0, "000000"),
    ];

    for test in &tests {
        assert_eq!(format_otp(test.0), test.1);
    }
}

#[test]
fn format_otp_keeps_seven_digit_codes_whole() {
    assert_eq!(format_otp(1000000), "1000000");
    assert_eq!(format_otp(u32::MAX), "4294967295");
}
