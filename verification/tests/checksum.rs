use dioxide::checksum::crc8;

#[test]
fn crc8_known_answer() {
    // The example of the sensor's interface description.
    assert_eq!(crc8(&[0xbe, 0xef]), 0x92);
}

#[test]
fn crc8_of_nothing_is_the_initial_value() {
    assert_eq!(crc8(&[]), 0xff);
}

#[test]
fn crc8_of_check_string() {
    assert_eq!(crc8(b"123456789"), 0xf7);
}

#[test]
fn crc8_of_flag_words() {
    assert_eq!(crc8(&[0x00, 0x00]), 0x81);
    assert_eq!(crc8(&[0x00, 0x01]), 0xb0);
    assert_eq!(crc8(&[0x00, 0x02]), 0xe3);
}

#[test]
fn crc8_depends_on_every_byte() {
    assert_ne!(crc8(&[0xbe, 0xef]), crc8(&[0xbe, 0xee]));
    assert_ne!(crc8(&[0xbe, 0xef]), crc8(&[0xbf, 0xef]));
    assert_ne!(crc8(&[0xbe, 0xef]), crc8(&[0xef, 0xbe]));
}
