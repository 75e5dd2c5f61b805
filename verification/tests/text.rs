use kungfu::text::format_address;

#[test]
fn address_in_dotted_decimal() {
    assert_eq!(format_address([10, 88, 0, 1]), "10.88.0.1");
    assert_eq!(format_address([0, 0, 0, 0]), "0.0.0.0");
    assert_eq!(format_address([255, 255, 255, 255]), "255.255.255.255");
    assert_eq!(format_address([1, 20, 100, 9]), "1.20.100.9");
}
