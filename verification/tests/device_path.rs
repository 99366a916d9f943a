use efivar::efidevicepath::{
    device_path_list_size, parse_device_path_list, write_device_path_list,
    DevicePathProtocolParseError, DevicePathType, EFIDevicePathProtocol, EncodeError, EndSubType,
    FilePathDevicePath, HardDriveDevicePath, MediaDevicePath, PartitionTableType, Signature,
    SubTypeError,
};
use efivar::guid::Guid;

const HARD_DRIVE: [u8; 42] = [
    0x04, 0x01, 0x2a, 0x00, 0x01, 0x00, 0x00, 0x00, 0x00, 0x08, 0x00, 0x00, 0x00, 0x00, 0x00, 0x00,
    0x00, 0x40, 0x1f, 0x00, 0x00, 0x00, 0x00, 0x00, 0x56, 0xa8, 0xa9, 0xeb, 0xdd, 0xdf, 0xeb, 0x42,
    0xbe, 0x76, 0x31, 0x76, 0x0a, 0xe9, 0x0f, 0x55, 0x02, 0x02,
];

const FILE_AB: [u8; 10] = [0x04, 0x04, 0x0a, 0x00, 0x61, 0x00, 0x62, 0x00, 0x00, 0x00];

const END_ENTIRE: [u8; 4] = [0x7f, 0xff, 0x04, 0x00];

const END_INSTANCE: [u8; 4] = [0x7f, 0x01, 0x04, 0x00];

fn sample_guid() -> Guid {
    Guid::from_bytes([
        0xeb, 0xa9, 0xa8, 0x56, 0xdf, 0xdd, 0x42, 0xeb, 0xbe, 0x76, 0x31, 0x76, 0x0a, 0xe9, 0x0f,
        0x55,
    ])
}

fn sample_hard_drive() -> EFIDevicePathProtocol {
    EFIDevicePathProtocol::new_hard_drive_gpt(1, 0x800, 0x1F4000, sample_guid())
}

fn encode(node: &EFIDevicePathProtocol) -> Vec<u8> {
    let mut out = vec![];
    node.write(&mut out).unwrap();
    out
}

fn encode_list(list: &Vec<EFIDevicePathProtocol>) -> Vec<u8> {
    let mut out = vec![];
    write_device_path_list(list, &mut out).unwrap();
    out
}

fn with_size(node: &[u8], size: u16) -> Vec<u8> {
    let mut bytes = node.to_vec();
    bytes[2] = (size & 0xff) as u8;
    bytes[3] = (size >> 8) as u8;
    bytes
}

#[test]
fn hard_drive_node_is_written_field_by_field() {
    assert_eq!(encode(&sample_hard_drive()), HARD_DRIVE);
    assert_eq!(sample_hard_drive().size(), 42);
}

#[test]
fn hard_drive_node_is_read_field_by_field() {
    let (node, size) = EFIDevicePathProtocol::parse(&HARD_DRIVE).unwrap();
    assert_eq!(node, sample_hard_drive());
    assert_eq!(size, 42);
}

#[test]
fn hard_drive_numbers_are_little_endian() {
    let node = EFIDevicePathProtocol::new_hard_drive_gpt(
        0x0403_0201,
        0x0807_0605_0403_0201,
        0x1817_1615_1413_1211,
        Guid::from_bytes([0; 16]),
    );
    let bytes = encode(&node);
    assert_eq!(&bytes[4..8], &[0x01, 0x02, 0x03, 0x04]);
    assert_eq!(&bytes[8..16], &[0x01, 0x02, 0x03, 0x04, 0x05, 0x06, 0x07, 0x08]);
    assert_eq!(&bytes[16..24], &[0x11, 0x12, 0x13, 0x14, 0x15, 0x16, 0x17, 0x18]);
    assert_eq!(EFIDevicePathProtocol::parse(&bytes).unwrap().0, node);
}

#[test]
fn raw_signatures_are_kept_as_they_are() {
    let mut payload = HARD_DRIVE[4..].to_vec();
    payload[36] = 0x01;
    payload[37] = 0x01;
    let mbr = HardDriveDevicePath::parse(&payload).unwrap();
    let mut out = vec![];
    mbr.write(&mut out);
    assert_eq!(out, payload);

    payload[37] = 0x00;
    let none = HardDriveDevicePath::parse(&payload).unwrap();
    assert_ne!(none, mbr);
    let mut out = vec![];
    none.write(&mut out);
    assert_eq!(out, payload);
}

#[test]
fn guid_signature_is_read_in_mixed_endian() {
    let parsed = HardDriveDevicePath::parse(&HARD_DRIVE[4..]).unwrap();
    assert_eq!(parsed, HardDriveDevicePath::new_gpt(1, 0x800, 0x1F4000, sample_guid()));
    let stored: [u8; 16] = HARD_DRIVE[24..40].try_into().unwrap();
    assert_eq!(Signature::GUID(sample_guid()).stored(), stored);
    assert_ne!(Signature::GUID(sample_guid()).stored(), *sample_guid().as_bytes());
    assert_eq!(Signature::GUID(sample_guid()).to_u8(), 2);
    assert_eq!(Signature::MBRSignature([0; 16]).to_u8(), 1);
    assert_eq!(Signature::NoSignature([0; 16]).to_u8(), 0);
}

#[test]
fn unknown_partition_table_is_a_sub_type_error() {
    let mut bytes = HARD_DRIVE;
    bytes[40] = 0x03;
    assert_eq!(
        EFIDevicePathProtocol::parse(&bytes),
        Err(DevicePathProtocolParseError::ParseSubType(SubTypeError::PartitionTable(0x03)))
    );
    bytes[40] = 0x00;
    assert_eq!(
        EFIDevicePathProtocol::parse(&bytes),
        Err(DevicePathProtocolParseError::ParseSubType(SubTypeError::PartitionTable(0x00)))
    );
}

#[test]
fn unknown_signature_kind_is_a_sub_type_error() {
    let mut bytes = HARD_DRIVE;
    bytes[41] = 0x03;
    assert_eq!(
        EFIDevicePathProtocol::parse(&bytes),
        Err(DevicePathProtocolParseError::ParseSubType(SubTypeError::SignatureType(0x03)))
    );
}

#[test]
fn partition_table_is_looked_at_before_signature_kind() {
    let mut bytes = HARD_DRIVE;
    bytes[40] = 0x09;
    bytes[41] = 0x09;
    assert_eq!(
        EFIDevicePathProtocol::parse(&bytes),
        Err(DevicePathProtocolParseError::ParseSubType(SubTypeError::PartitionTable(0x09)))
    );
}

#[test]
fn partition_table_bytes() {
    assert_eq!(PartitionTableType::MBR.to_u8(), 1);
    assert_eq!(PartitionTableType::GPT.to_u8(), 2);
    assert_eq!(PartitionTableType::from_u8(1), Some(PartitionTableType::MBR));
    assert_eq!(PartitionTableType::from_u8(2), Some(PartitionTableType::GPT));
    assert_eq!(PartitionTableType::from_u8(0), None);
}

#[test]
fn file_path_node_is_utf16_with_terminator() {
    let node = EFIDevicePathProtocol::new_file_path("ab");
    assert_eq!(encode(&node), FILE_AB);
    assert_eq!(node.size(), 10);
    assert_eq!(EFIDevicePathProtocol::parse(&FILE_AB), Ok((node, 10)));
}

#[test]
fn empty_file_path_is_the_terminator_alone() {
    let node = EFIDevicePathProtocol::new_file_path("");
    assert_eq!(encode(&node), [0x04, 0x04, 0x06, 0x00, 0x00, 0x00]);
    assert_eq!(EFIDevicePathProtocol::parse(&encode(&node)).unwrap().0, node);
}

#[test]
fn file_path_outside_the_basic_plane_takes_two_units() {
    let node = EFIDevicePathProtocol::new_file_path("a\u{1F600}\u{e9}\u{ffff}\u{10000}\u{10ffff}");
    let bytes = encode(&node);
    assert_eq!(
        bytes,
        [
            0x04, 0x04, 0x18, 0x00, 0x61, 0x00, 0x3d, 0xd8, 0x00, 0xde, 0xe9, 0x00, 0xff, 0xff,
            0x00, 0xd8, 0x00, 0xdc, 0xff, 0xdb, 0xff, 0xdf, 0x00, 0x00,
        ]
    );
    assert_eq!(node.size(), 24);
    assert_eq!(EFIDevicePathProtocol::parse(&bytes), Ok((node, 24)));
}

#[test]
fn file_path_with_lone_surrogate_is_a_sub_type_error() {
    let high_alone = [0x04, 0x04, 0x08, 0x00, 0x00, 0xd8, 0x00, 0x00];
    let low_first = [0x04, 0x04, 0x08, 0x00, 0x00, 0xdc, 0x00, 0x00];
    let high_then_plain = [0x04, 0x04, 0x0a, 0x00, 0x00, 0xd8, 0x61, 0x00, 0x00, 0x00];
    for bytes in [&high_alone[..], &low_first[..], &high_then_plain[..]] {
        assert_eq!(
            EFIDevicePathProtocol::parse(bytes),
            Err(DevicePathProtocolParseError::ParseSubType(SubTypeError::Utf16))
        );
    }
}

#[test]
fn file_path_without_terminator_in_the_node_ends_early() {
    let unterminated = [0x04, 0x04, 0x08, 0x00, 0x61, 0x00, 0x62, 0x00, 0x00, 0x00];
    assert_eq!(
        EFIDevicePathProtocol::parse(&unterminated),
        Err(DevicePathProtocolParseError::UnexpectedEof)
    );
    let odd = [0x04, 0x04, 0x07, 0x00, 0x61, 0x00, 0x00];
    assert_eq!(
        EFIDevicePathProtocol::parse(&odd),
        Err(DevicePathProtocolParseError::UnexpectedEof)
    );
    assert_eq!(FilePathDevicePath::parse(&[]), Err(DevicePathProtocolParseError::UnexpectedEof));
}

#[test]
fn file_path_with_bytes_after_the_terminator_has_a_wrong_size() {
    let trailing = [0x04, 0x04, 0x0c, 0x00, 0x61, 0x00, 0x00, 0x00, 0x62, 0x00, 0x00, 0x00];
    assert_eq!(
        EFIDevicePathProtocol::parse(&trailing),
        Err(DevicePathProtocolParseError::InvalidSize)
    );
}

#[test]
fn file_path_parse_gives_the_path() {
    let path = FilePathDevicePath::parse(&FILE_AB[4..]).unwrap();
    assert_eq!(path.path_name(), "ab");
    assert_eq!(path, FilePathDevicePath::new("ab"));
}

#[test]
fn media_parse_goes_by_the_sub_type() {
    assert_eq!(
        MediaDevicePath::parse(0x04, &FILE_AB[4..]),
        Ok(MediaDevicePath::FilePath(FilePathDevicePath::new("ab")))
    );
    assert!(matches!(
        MediaDevicePath::parse(0x01, &HARD_DRIVE[4..]),
        Ok(MediaDevicePath::HardDrive(_))
    ));
    let media = MediaDevicePath::parse(0x04, &FILE_AB[4..]).unwrap();
    assert_eq!(media.sub_type(), 0x04);
    assert_eq!(media.size(), 6);
    assert_eq!(media.checked_size(), Some(6));
    let drive = MediaDevicePath::parse(0x01, &HARD_DRIVE[4..]).unwrap();
    assert_eq!(drive.sub_type(), 0x01);
    assert_eq!(drive.size(), 38);
    let mut out = vec![];
    drive.write(&mut out);
    assert_eq!(out, &HARD_DRIVE[4..]);
}

#[test]
fn unknown_media_sub_type_is_named() {
    for sub_type in [0x00u8, 0x02, 0x03, 0x05, 0x09, 0xff] {
        let bytes = [0x04, sub_type, 0x04, 0x00];
        assert_eq!(
            EFIDevicePathProtocol::parse(&bytes),
            Err(DevicePathProtocolParseError::UnknownSubType {
                typ: DevicePathType::MediaDevicePath,
                sub_type,
            })
        );
    }
}

#[test]
fn unknown_end_sub_type_is_named() {
    let bytes = [0x7f, 0x02, 0x04, 0x00];
    assert_eq!(
        EFIDevicePathProtocol::parse(&bytes),
        Err(DevicePathProtocolParseError::UnknownSubType {
            typ: DevicePathType::End,
            sub_type: 0x02,
        })
    );
}

#[test]
fn unknown_type_is_named() {
    for typ in [0x00u8, 0x01, 0x02, 0x03, 0x05, 0xaa, 0xff] {
        let bytes = [typ, 0x01, 0x04, 0x00];
        assert_eq!(
            EFIDevicePathProtocol::parse(&bytes),
            Err(DevicePathProtocolParseError::UnknownType(typ))
        );
    }
}

#[test]
fn unknown_type_is_named_whatever_the_size_says() {
    assert_eq!(
        EFIDevicePathProtocol::parse(&[0xaa, 0x01, 0x00, 0x00]),
        Err(DevicePathProtocolParseError::UnknownType(0xaa))
    );
    assert_eq!(
        EFIDevicePathProtocol::parse(&[0xaa, 0x01, 0xff, 0xff]),
        Err(DevicePathProtocolParseError::UnknownType(0xaa))
    );
}

#[test]
fn end_nodes_have_no_payload() {
    assert_eq!(encode(&EFIDevicePathProtocol::new_end_entire()), END_ENTIRE);
    assert_eq!(
        EFIDevicePathProtocol::parse(&END_ENTIRE),
        Ok((EFIDevicePathProtocol::End(EndSubType::EndEntireDevicePath), 4))
    );
    assert_eq!(
        EFIDevicePathProtocol::parse(&END_INSTANCE),
        Ok((EFIDevicePathProtocol::End(EndSubType::EndInstanceDevicePath), 4))
    );
    assert_eq!(EFIDevicePathProtocol::new_end_entire().size(), 4);
    assert_eq!(EndSubType::EndEntireDevicePath.sub_type(), 0xff);
    assert_eq!(EndSubType::EndInstanceDevicePath.sub_type(), 0x01);
    assert_eq!(EndSubType::from_u8(0xff), Some(EndSubType::EndEntireDevicePath));
    assert_eq!(EndSubType::from_u8(0x01), Some(EndSubType::EndInstanceDevicePath));
    assert_eq!(EndSubType::from_u8(0x7f), None);
}

#[test]
fn a_size_that_disagrees_with_the_content_is_rejected() {
    let mut long_end = with_size(&END_ENTIRE, 6);
    long_end.extend_from_slice(&[0, 0]);
    assert_eq!(
        EFIDevicePathProtocol::parse(&long_end),
        Err(DevicePathProtocolParseError::InvalidSize)
    );
    for size in [0u16, 1, 2, 3] {
        assert_eq!(
            EFIDevicePathProtocol::parse(&with_size(&END_ENTIRE, size)),
            Err(DevicePathProtocolParseError::InvalidSize)
        );
        assert_eq!(
            EFIDevicePathProtocol::parse(&with_size(&HARD_DRIVE, size)),
            Err(DevicePathProtocolParseError::InvalidSize)
        );
    }
    let mut long_drive = with_size(&HARD_DRIVE, 43);
    long_drive.push(0);
    assert_eq!(
        EFIDevicePathProtocol::parse(&long_drive),
        Err(DevicePathProtocolParseError::InvalidSize)
    );
}

#[test]
fn a_hard_drive_node_cut_short_by_its_size_field_ends_early() {
    assert_eq!(
        EFIDevicePathProtocol::parse(&with_size(&HARD_DRIVE, 41)),
        Err(DevicePathProtocolParseError::UnexpectedEof)
    );
    assert_eq!(
        EFIDevicePathProtocol::parse(&with_size(&HARD_DRIVE, 40)),
        Err(DevicePathProtocolParseError::UnexpectedEof)
    );
}

#[test]
fn a_hard_drive_payload_without_its_last_byte_ends_early() {
    let mut payload = vec![0x01, 0x00, 0x00, 0x00];
    payload.extend_from_slice(&[0u8; 8]);
    payload.extend_from_slice(&[0u8; 8]);
    payload.extend_from_slice(&[0u8; 16]);
    payload.push(0x02);
    assert_eq!(payload.len(), 37);
    assert_eq!(
        HardDriveDevicePath::parse(&payload),
        Err(DevicePathProtocolParseError::UnexpectedEof)
    );
    assert_eq!(
        HardDriveDevicePath::parse(&HARD_DRIVE[4..41]),
        Err(DevicePathProtocolParseError::UnexpectedEof)
    );
    for len in 0..38 {
        assert_eq!(
            HardDriveDevicePath::parse(&HARD_DRIVE[4..4 + len]),
            Err(DevicePathProtocolParseError::UnexpectedEof)
        );
    }
}

#[test]
fn an_unknown_partition_table_is_told_before_the_signature_kind_is_read() {
    let mut payload = HARD_DRIVE[4..41].to_vec();
    payload[36] = 0x03;
    assert_eq!(
        HardDriveDevicePath::parse(&payload),
        Err(DevicePathProtocolParseError::ParseSubType(SubTypeError::PartitionTable(0x03)))
    );
    assert_eq!(
        HardDriveDevicePath::parse(&payload[..36]),
        Err(DevicePathProtocolParseError::UnexpectedEof)
    );
}

#[test]
fn a_hard_drive_node_is_read_from_its_first_38_bytes() {
    let mut payload = HARD_DRIVE[4..].to_vec();
    payload.extend_from_slice(&[0xde, 0xad, 0xbe, 0xef]);
    assert_eq!(
        HardDriveDevicePath::parse(&payload),
        Ok(HardDriveDevicePath::new_gpt(1, 0x800, 0x1F4000, sample_guid()))
    );
    for table in [0x00u8, 0x03, 0xff] {
        payload[36] = table;
        assert_eq!(
            HardDriveDevicePath::parse(&payload),
            Err(DevicePathProtocolParseError::ParseSubType(SubTypeError::PartitionTable(table)))
        );
    }
    payload[36] = 0x01;
    for kind in [0x03u8, 0x7f, 0xff] {
        payload[37] = kind;
        assert_eq!(
            HardDriveDevicePath::parse(&payload),
            Err(DevicePathProtocolParseError::ParseSubType(SubTypeError::SignatureType(kind)))
        );
    }
    for kind in [0x00u8, 0x01, 0x02] {
        payload[37] = kind;
        assert!(HardDriveDevicePath::parse(&payload).is_ok());
    }
}

#[test]
fn a_file_path_is_read_up_to_its_terminator() {
    let bytes = [0x41, 0x00, 0x00, 0x00, 0x42, 0x00];
    assert_eq!(FilePathDevicePath::parse(&bytes), Ok(FilePathDevicePath::new("A")));
    assert_eq!(
        MediaDevicePath::parse(0x04, &bytes),
        Ok(MediaDevicePath::FilePath(FilePathDevicePath::new("A")))
    );
}

#[test]
fn an_unknown_sub_type_is_told_whatever_the_size_says() {
    assert_eq!(
        EFIDevicePathProtocol::parse(&[0x04, 0x02, 0x00, 0x00]),
        Err(DevicePathProtocolParseError::UnknownSubType {
            typ: DevicePathType::MediaDevicePath,
            sub_type: 0x02,
        })
    );
    assert_eq!(
        EFIDevicePathProtocol::parse(&[0x04, 0x02, 0xff, 0xff]),
        Err(DevicePathProtocolParseError::UnknownSubType {
            typ: DevicePathType::MediaDevicePath,
            sub_type: 0x02,
        })
    );
    assert_eq!(
        EFIDevicePathProtocol::parse(&[0x7f, 0x02, 0x00, 0x00]),
        Err(DevicePathProtocolParseError::UnknownSubType {
            typ: DevicePathType::End,
            sub_type: 0x02,
        })
    );
    assert_eq!(
        EFIDevicePathProtocol::parse(&[0x7f, 0x00, 0x08, 0x00]),
        Err(DevicePathProtocolParseError::UnknownSubType {
            typ: DevicePathType::End,
            sub_type: 0x00,
        })
    );
}

#[test]
fn a_buffer_shorter_than_the_node_declares_is_rejected() {
    assert_eq!(
        EFIDevicePathProtocol::parse(&with_size(&END_ENTIRE, 8)),
        Err(DevicePathProtocolParseError::UnexpectedEof)
    );
    for len in 0..HARD_DRIVE.len() {
        assert_eq!(
            EFIDevicePathProtocol::parse(&HARD_DRIVE[..len]),
            Err(DevicePathProtocolParseError::UnexpectedEof)
        );
    }
    for len in 0..FILE_AB.len() {
        assert_eq!(
            EFIDevicePathProtocol::parse(&FILE_AB[..len]),
            Err(DevicePathProtocolParseError::UnexpectedEof)
        );
    }
    for len in 0..END_ENTIRE.len() {
        assert_eq!(
            EFIDevicePathProtocol::parse(&END_ENTIRE[..len]),
            Err(DevicePathProtocolParseError::UnexpectedEof)
        );
    }
}

#[test]
fn bytes_after_a_node_are_left_alone() {
    let mut bytes = FILE_AB.to_vec();
    bytes.extend_from_slice(&[0xde, 0xad, 0xbe, 0xef]);
    assert_eq!(
        EFIDevicePathProtocol::parse(&bytes),
        Ok((EFIDevicePathProtocol::new_file_path("ab"), 10))
    );
}

#[test]
fn writing_appends_to_what_is_there() {
    let mut out = vec![0x11, 0x22];
    EFIDevicePathProtocol::new_file_path("ab").write(&mut out).unwrap();
    assert_eq!(&out[..2], &[0x11, 0x22]);
    assert_eq!(&out[2..], &FILE_AB);
}

#[test]
fn list_is_written_with_an_end_node_and_read_without_it() {
    let list = vec![sample_hard_drive(), EFIDevicePathProtocol::new_file_path("ab")];
    let mut expected = HARD_DRIVE.to_vec();
    expected.extend_from_slice(&FILE_AB);
    expected.extend_from_slice(&END_ENTIRE);

    let bytes = encode_list(&list);

    assert_eq!(bytes, expected);
    assert_eq!(device_path_list_size(&list), Ok(56));
    let (read, used) = parse_device_path_list(&bytes).unwrap();
    assert_eq!(read, list);
    assert_eq!(used, 56);
    assert!(!read.contains(&EFIDevicePathProtocol::new_end_entire()));
}

#[test]
fn empty_list_is_the_end_node_alone() {
    let list = vec![];
    assert_eq!(encode_list(&list), END_ENTIRE);
    assert_eq!(device_path_list_size(&list), Ok(4));
    assert_eq!(parse_device_path_list(&END_ENTIRE), Ok((vec![], 4)));
}

#[test]
fn list_ends_at_the_first_end_node_of_either_kind() {
    let mut bytes = FILE_AB.to_vec();
    bytes.extend_from_slice(&END_INSTANCE);
    bytes.extend_from_slice(&FILE_AB);
    bytes.extend_from_slice(&END_ENTIRE);

    let (read, used) = parse_device_path_list(&bytes).unwrap();

    assert_eq!(read, vec![EFIDevicePathProtocol::new_file_path("ab")]);
    assert_eq!(used, 14);
}

#[test]
fn list_without_end_node_fails() {
    assert_eq!(parse_device_path_list(&FILE_AB), Err(DevicePathProtocolParseError::UnexpectedEof));
    assert_eq!(parse_device_path_list(&[]), Err(DevicePathProtocolParseError::UnexpectedEof));
}

#[test]
fn every_cut_of_a_written_list_fails() {
    let list = vec![sample_hard_drive(), EFIDevicePathProtocol::new_file_path("ab")];
    let bytes = encode_list(&list);
    for len in 0..bytes.len() {
        assert_eq!(
            parse_device_path_list(&bytes[..len]),
            Err(DevicePathProtocolParseError::UnexpectedEof)
        );
    }
}

#[test]
fn first_bad_node_fails_the_list() {
    let mut bytes = FILE_AB.to_vec();
    bytes.extend_from_slice(&[0xaa, 0x01, 0x04, 0x00]);
    bytes.extend_from_slice(&END_ENTIRE);
    assert_eq!(
        parse_device_path_list(&bytes),
        Err(DevicePathProtocolParseError::UnknownType(0xaa))
    );
}

#[test]
fn longest_file_path_that_fits() {
    let path = "a".repeat(32764);
    let node = EFIDevicePathProtocol::new_file_path(&path);
    assert_eq!(node.checked_size(), Some(65534));
    assert_eq!(node.size(), 65534);
    let bytes = encode(&node);
    assert_eq!(bytes.len(), 65534);
    assert_eq!(&bytes[..4], &[0x04, 0x04, 0xfe, 0xff]);
    assert_eq!(EFIDevicePathProtocol::parse(&bytes), Ok((node, 65534)));
}

#[test]
fn file_path_too_long_for_the_size_field() {
    let path = "a".repeat(32765);
    let node = EFIDevicePathProtocol::new_file_path(&path);
    assert_eq!(node.checked_size(), None);
    let mut out = vec![0x55];
    assert_eq!(node.write(&mut out), Err(EncodeError::NodeTooLarge));
    assert_eq!(out, [0x55]);

    let list = vec![EFIDevicePathProtocol::new_file_path("ab"), node];
    assert_eq!(device_path_list_size(&list), Err(EncodeError::NodeTooLarge));
    assert_eq!(write_device_path_list(&list, &mut out), Err(EncodeError::NodeTooLarge));
    assert_eq!(out, [0x55]);
}

#[test]
fn list_too_long_for_two_bytes() {
    let path = "a".repeat(20000);
    let list = vec![
        EFIDevicePathProtocol::new_file_path(&path),
        EFIDevicePathProtocol::new_file_path(&path),
    ];
    assert_eq!(device_path_list_size(&list), Err(EncodeError::ListTooLarge));
    let bytes = encode_list(&list);
    assert_eq!(bytes.len(), 2 * 40006 + 4);
    assert_eq!(parse_device_path_list(&bytes), Ok((list, 80016)));
}

#[test]
fn a_large_node_after_the_list_is_full_is_still_named() {
    let list = vec![
        EFIDevicePathProtocol::new_file_path(&"a".repeat(20000)),
        EFIDevicePathProtocol::new_file_path(&"a".repeat(20000)),
        EFIDevicePathProtocol::new_file_path(&"a".repeat(40000)),
    ];
    assert_eq!(device_path_list_size(&list), Err(EncodeError::NodeTooLarge));
}

#[test]
fn list_that_just_fits_two_bytes() {
    let list = vec![
        EFIDevicePathProtocol::new_file_path(&"a".repeat(16000)),
        EFIDevicePathProtocol::new_file_path(&"a".repeat(16757)),
    ];
    assert_eq!(device_path_list_size(&list), Ok(65530));
    let longer = vec![
        EFIDevicePathProtocol::new_file_path(&"a".repeat(16000)),
        EFIDevicePathProtocol::new_file_path(&"a".repeat(16760)),
    ];
    assert_eq!(device_path_list_size(&longer), Err(EncodeError::ListTooLarge));
    let exact = vec![
        EFIDevicePathProtocol::new_file_path(&"a".repeat(16000)),
        EFIDevicePathProtocol::new_file_path(&"a".repeat(16738)),
        EFIDevicePathProtocol::new_hard_drive_gpt(0, 0, 0, Guid::from_bytes([0; 16])),
    ];
    assert_eq!(device_path_list_size(&exact), Ok(65534));
}
