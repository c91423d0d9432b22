use canadensis::crc::TransferCrc;

#[test]
fn crc_check_value() {
    // The check value of CRC-16/CCITT-FALSE
    let mut crc = TransferCrc::new();
    crc.add_bytes(b"123456789");
    assert_eq!(crc.get(), 0x29b1);
}

#[test]
fn crc_initial_value() {
    assert_eq!(TransferCrc::new().get(), 0xffff);
}

#[test]
fn crc_of_data_and_its_crc_is_zero() {
    let data: Vec<u8> = (1..=25).collect();
    let mut crc = TransferCrc::new();
    crc.add_bytes(&data);
    let value = crc.get();
    crc.add((value >> 8) as u8);
    crc.add(value as u8);
    assert_eq!(crc.get(), 0);
}
