use iceprog::flash::{decode_status, extended_id_len, id_bytes, poll_step};
use iceprog::mpsse::{
    encode_bit_transfer, encode_byte_transfer, encode_clock_divisor, encode_clock_only, encode_disable_clk_div5,
    encode_read_low_gpio, encode_set_low_gpio, Command,
};
use iceprog::session::{erase_range, page_plan};
use iceprog::status::{Error, FtStatus};
use iceprog::vcp::{com_port_from_raw, find_device, BitMode, Interface, FT_DEVICE_LIST_INFO_NODE};

#[test]
fn command_opcodes() {
    assert_eq!(Command::MC_SETB_LOW.to_u8(), 0x80);
    assert_eq!(Command::MC_READB_HIGH.to_u8(), 0x83);
    assert_eq!(Command::MC_TCK_X5.to_u8(), 0x8A);
    assert_eq!(Command::MC_CLK_N8.to_u8(), 0x8F);
    assert_eq!(Command::MC_TRI.to_u8(), 0x9E);
    assert_eq!(Command::MC_CPU_WE.to_u8(), 0x93);
}

#[test]
fn bit_mode_bytes() {
    assert_eq!(BitMode::MPSSE.to_u8(), 0x02);
    assert_eq!(BitMode::SyncFIFO.to_u8(), 0x40);
    assert_eq!(BitMode::from(0x04u8), BitMode::SyncBitbang);
    assert_eq!(BitMode::from(0x03u8), BitMode::Unknown(0x03));
    for b in 0..=255u8 {
        assert_eq!(BitMode::from(b).to_u8(), b);
    }
}

#[test]
fn status_codes() {
    assert_eq!(Error::from(0u32), Error::NoError);
    assert_eq!(Error::from(4u32), Error::IoError);
    assert_eq!(Error::from(19u32), Error::DeviceListNotReady);
    assert_eq!(Error::from(77u32), Error::UnknownError(77));
    assert_eq!(Error::check(0), Ok(()));
    assert_eq!(Error::check(2), Err(Error::DeviceNotFound));
    assert_eq!(FtStatus::FT_INVALID_ARGS.code(), 16);
    assert_eq!(Error::from(FtStatus::FT_OTHER_ERROR.code()), Error::OtherError);
}

#[test]
fn frames() {
    assert_eq!(encode_set_low_gpio(0x10, 0x93), vec![0x80, 0x10, 0x93]);
    assert_eq!(encode_read_low_gpio(), vec![0x81]);
    assert_eq!(encode_clock_divisor(119, 0), vec![0x86, 119, 0]);
    assert_eq!(encode_disable_clk_div5(), vec![0x8A]);
    assert_eq!(encode_byte_transfer(0x31, 1), Ok(vec![0x31, 0, 0]));
    assert_eq!(encode_byte_transfer(0x31, 300), Ok(vec![0x31, 0x2B, 0x01]));
    assert_eq!(encode_byte_transfer(0x11, 65536), Ok(vec![0x11, 0xFF, 0xFF]));
    assert_eq!(encode_byte_transfer(0x11, 0), Err(Error::InvalidArgs));
    assert_eq!(encode_byte_transfer(0x11, 65537), Err(Error::InvalidArgs));
    assert_eq!(encode_bit_transfer(0x33, 8, 0xFF), Ok(vec![0x33, 7, 0xFF]));
    assert_eq!(encode_bit_transfer(0x33, 9, 0xFF), Err(Error::InvalidArgs));
    assert_eq!(encode_bit_transfer(0x33, 0, 0xFF), Err(Error::InvalidArgs));
    assert_eq!(encode_clock_only(2), Ok(vec![0x8F, 1, 0]));
}

#[test]
fn erase_bounds_round_outward() {
    assert_eq!(erase_range(0x12345, 1), (0x10000, 0x20000));
    assert_eq!(erase_range(0x10000, 0x10000), (0x10000, 0x20000));
    assert_eq!(erase_range(0x10000, 0), (0x10000, 0x10000));
    assert_eq!(page_plan(0x200, 0), vec![]);
    assert_eq!(page_plan(0x200, 256), vec![(0x200, 256)]);
}

#[test]
fn jedec_helpers() {
    assert_eq!(extended_id_len(0xFF), 0);
    assert_eq!(extended_id_len(3), 3);
    assert_eq!(id_bytes(&vec![0x9F, 1, 2, 3, 0xFF], &vec![]), vec![1, 2, 3]);
    assert_eq!(id_bytes(&vec![0x9F, 1, 2, 3, 2], &vec![9, 8]), vec![1, 2, 3, 9, 8]);
}

#[test]
fn device_selection() {
    let list = vec![
        FT_DEVICE_LIST_INFO_NODE { flags: 0, device_type: 0, id: 0x0403_6014, loc_id: 0x21 },
        FT_DEVICE_LIST_INFO_NODE { flags: 0, device_type: 0, id: 0x0403_6010, loc_id: 0x21 },
        FT_DEVICE_LIST_INFO_NODE { flags: 0, device_type: 0, id: 0x0403_6010, loc_id: 0x22 },
    ];
    assert_eq!(find_device(&list, 0x0403, 0x6010, None), Some(1));
    assert_eq!(find_device(&list, 0x0403, 0x6010, Some(Interface::B)), Some(2));
    assert_eq!(find_device(&list, 0x0403, 0x6010, Some(Interface::C)), None);
    assert_eq!(find_device(&list, 0x0403, 0x6014, Some(Interface::A)), Some(0));
    assert_eq!(Interface::from_index(1), Some(Interface::B));
    assert_eq!(Interface::from_index(4), None);
    assert_eq!(com_port_from_raw(3), Ok(3));
    assert_eq!(com_port_from_raw(-1), Err(Error::NoComPortAssigned));
}

#[test]
fn wait_step_decisions() {
    assert_eq!(poll_step(0, 0x01), (0, false));
    assert_eq!(poll_step(2, 0x03), (0, false));
    assert_eq!(poll_step(0, 0x00), (1, false));
    assert_eq!(poll_step(1, 0x02), (2, false));
    assert_eq!(poll_step(2, 0x00), (2, true));
}

#[test]
fn status_register_fields() {
    let f = decode_status(0b1010_1101);
    assert!(f.busy);
    assert!(!f.write_enabled);
    assert_eq!(f.protection, 3);
    assert!(!f.write_protect_pin);
    assert!(f.erase_program_error);
    assert!(!f.program_mode);
    assert!(f.locked);
}
