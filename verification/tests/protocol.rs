use ibsim::sys;
use ibsim::{
    ClientInfo, ControlMessage, ControlType, Error, MadRequest, PortInfo, VendorInfo,
    WireMessage, CONTROL_DATA_CAPACITY, MAD_CAPACITY, NODE_ID_CAPACITY,
};

#[test]
fn client_info_round_trip() {
    let info = ClientInfo::new(42, 1, true, b"H-1").unwrap();
    assert_eq!(ClientInfo::decode(&info.encode()).unwrap(), info);
}

#[test]
fn control_connect_round_trip() {
    let info = ClientInfo::new(99, 0, false, b"node-a").unwrap();
    let message = ControlMessage::connect(&info);
    let decoded = ControlMessage::decode(&message.encode()).unwrap();
    assert_eq!(decoded.kind(), ControlType::Connect);
    assert_eq!(decoded.decode_payload::<ClientInfo>().unwrap(), info);
}

#[test]
fn mad_round_trip_preserves_payload() {
    let request = MadRequest::new(1, 2, 3, 4, 0, &[1_u8, 2, 3, 4]).unwrap();
    assert_eq!(MadRequest::decode(&request.encode()).unwrap(), request);
}

#[test]
fn control_magic_is_validated() {
    let mut bytes = ControlMessage::get_vendor(1).encode();
    bytes[0] ^= 1;
    assert!(matches!(
        ControlMessage::decode(&bytes),
        Err(Error::InvalidMagic(_))
    ));
}

#[test]
fn constructors_enforce_fixed_buffers() {
    assert!(matches!(
        MadRequest::new(0, 0, 0, 0, 0, &[0_u8; MAD_CAPACITY + 1]),
        Err(Error::MadTooLong(_))
    ));
    assert!(matches!(
        ClientInfo::new(0, 0, false, &vec![b'x'; NODE_ID_CAPACITY + 1]),
        Err(Error::NodeIdTooLong(_))
    ));
}

#[test]
fn readme_connect_example() {
    let client = ClientInfo::new(1234, 0, false, b"H-1").unwrap();
    let request = ControlMessage::connect(&client);
    let datagram = request.encode();
    let decoded = ControlMessage::decode(&datagram).unwrap();
    assert_eq!(decoded.kind(), ControlType::Connect);
    assert_eq!(decoded.decode_payload::<ClientInfo>().unwrap(), client);
}

/// The padding the C layout puts before a `u64` at offset 12 or 20.
fn u64_pad() -> usize {
    if std::mem::align_of::<u64>() == 8 {
        4
    } else {
        0
    }
}

#[test]
fn wire_sizes_match_the_header() {
    assert_eq!(VendorInfo::wire_size(), 20 + u64_pad());
    assert_eq!(PortInfo::wire_size(), 4);
    assert_eq!(MadRequest::wire_size(), 284 + u64_pad());
    assert_eq!(ControlMessage::wire_size(), 80);
    assert_eq!(ClientInfo::wire_size(), 44);
    let vendor = VendorInfo {
        vendor_id: 1,
        vendor_part_id: 2,
        hardware_version: 3,
        firmware_version: 4,
    };
    assert_eq!(vendor.encode().len(), VendorInfo::wire_size());
    assert_eq!(PortInfo { lid: 7, state: 4 }.encode().len(), 4);
    assert_eq!(ControlMessage::disconnect(3).encode().len(), 80);
}

#[test]
fn vendor_layout_and_round_trip() {
    let vendor = VendorInfo {
        vendor_id: 0x0102_0304,
        vendor_part_id: 0x0a0b_0c0d,
        hardware_version: 0xa1,
        firmware_version: 0x1122_3344_5566_7788,
    };
    let bytes = vendor.encode();
    let mut expected = Vec::new();
    expected.extend_from_slice(&0x0102_0304_u32.to_ne_bytes());
    expected.extend_from_slice(&0x0a0b_0c0d_u32.to_ne_bytes());
    expected.extend_from_slice(&0xa1_u32.to_ne_bytes());
    expected.extend_from_slice(&vec![0_u8; u64_pad()]);
    expected.extend_from_slice(&0x1122_3344_5566_7788_u64.to_ne_bytes());
    assert_eq!(bytes, expected);
    assert_eq!(VendorInfo::decode(&bytes).unwrap(), vendor);
}

#[test]
fn vendor_decode_ignores_padding() {
    let mut bytes = vec![0_u8; 20 + u64_pad()];
    if u64_pad() > 0 {
        bytes[12] = 0xff;
    }
    bytes[0..4].copy_from_slice(&9_u32.to_ne_bytes());
    let vendor = VendorInfo::decode(&bytes).unwrap();
    assert_eq!(vendor.vendor_id, 9);
    assert_eq!(vendor.firmware_version, 0);
}

#[test]
fn port_layout_and_round_trip() {
    let port = PortInfo { lid: 0x1234, state: 4 };
    let bytes = port.encode();
    let lid = 0x1234_u16.to_ne_bytes();
    assert_eq!(bytes, vec![lid[0], lid[1], 4, 0]);
    assert_eq!(PortInfo::decode(&bytes).unwrap(), port);
}

#[test]
fn raw_conversions_keep_every_field() {
    let vendor = VendorInfo {
        vendor_id: 5,
        vendor_part_id: 6,
        hardware_version: 7,
        firmware_version: 8,
    };
    let raw = sys::sim_vendor::from(vendor);
    assert_eq!(raw.hw_ver, 7);
    assert_eq!(raw.fw_ver, 8);
    assert_eq!(VendorInfo::from(raw), vendor);
    let port = PortInfo { lid: 3, state: 1 };
    let raw_port = sys::sim_port::from(port);
    assert_eq!(raw_port.lid, 3);
    assert_eq!(PortInfo::from(raw_port), port);
}

#[test]
fn wrong_sizes_are_refused() {
    assert_eq!(
        VendorInfo::decode(&[0_u8; 19]),
        Err(Error::InvalidWireSize { expected: 20 + u64_pad(), actual: 19 })
    );
    assert_eq!(
        PortInfo::decode(&[0_u8; 5]),
        Err(Error::InvalidWireSize { expected: 4, actual: 5 })
    );
    assert_eq!(
        MadRequest::decode(&[0_u8; 283]),
        Err(Error::InvalidWireSize { expected: 284 + u64_pad(), actual: 283 })
    );
    assert!(matches!(
        ControlMessage::decode(&[]),
        Err(Error::InvalidWireSize { expected: 80, actual: 0 })
    ));
    assert!(matches!(
        ClientInfo::decode(&[0_u8; 45]),
        Err(Error::InvalidWireSize { expected: 44, actual: 45 })
    ));
}

#[test]
fn mad_request_accessors() {
    let mut request = MadRequest::new(10, 20, 30, 40, 50, &[9_u8; 3]).unwrap();
    assert_eq!(request.dlid(), 10);
    assert_eq!(request.slid(), 20);
    assert_eq!(request.destination_qp(), 30);
    assert_eq!(request.source_qp(), 40);
    assert_eq!(request.status(), 50);
    assert_eq!(request.payload(), &[9_u8, 9, 9]);
    request.set_status(7);
    assert_eq!(request.status(), 7);
    assert_eq!(request.set_payload(&[1_u8, 2]), Ok(()));
    assert_eq!(request.payload(), &[1_u8, 2]);
    assert_eq!(
        request.set_payload(&[0_u8; MAD_CAPACITY + 1]),
        Err(Error::MadTooLong(MAD_CAPACITY + 1))
    );
    assert_eq!(request.payload(), &[1_u8, 2]);
    assert_eq!(request.clone(), request);
}

#[test]
fn mad_capacity_is_accepted() {
    let request = MadRequest::new(0, 0, 0, 0, 0, &[0xab_u8; MAD_CAPACITY]).unwrap();
    let decoded = MadRequest::decode(&request.encode()).unwrap();
    assert_eq!(decoded.payload().len(), MAD_CAPACITY);
    assert_eq!(decoded, request);
}

#[test]
fn mad_layout() {
    let request = MadRequest::new(1, 2, 3, 4, 5, &[0xee_u8, 0xff]).unwrap();
    let bytes = request.encode();
    let p = u64_pad();
    assert_eq!(bytes.len(), 284 + p);
    assert_eq!(&bytes[0..4], &1_u32.to_ne_bytes());
    assert_eq!(&bytes[16..20], &5_u32.to_ne_bytes());
    assert!(bytes[20..20 + p].iter().all(|&b| b == 0));
    assert_eq!(&bytes[20 + p..28 + p], &2_u64.to_ne_bytes());
    assert_eq!(&bytes[28 + p..30 + p], &[0xee_u8, 0xff]);
    assert!(bytes[30 + p..].iter().all(|&b| b == 0));
}

#[test]
fn mad_decode_rejects_long_length() {
    let p = u64_pad();
    let mut bytes = vec![0_u8; 284 + p];
    bytes[20 + p..28 + p].copy_from_slice(&257_u64.to_ne_bytes());
    assert_eq!(
        MadRequest::decode(&bytes),
        Err(Error::InvalidMadLength(257))
    );
    bytes[20 + p..28 + p].copy_from_slice(&u64::MAX.to_ne_bytes());
    assert_eq!(
        MadRequest::decode(&bytes),
        Err(Error::InvalidMadLength(u64::MAX))
    );
    bytes[20 + p..28 + p].copy_from_slice(&256_u64.to_ne_bytes());
    assert_eq!(MadRequest::decode(&bytes).unwrap().payload().len(), 256);
}

#[test]
fn control_type_numbers() {
    let kinds = [
        ControlType::Error,
        ControlType::Connect,
        ControlType::Disconnect,
        ControlType::GetPort,
        ControlType::GetVendor,
        ControlType::GetGid,
        ControlType::GetGuid,
        ControlType::GetNodeInfo,
        ControlType::GetPortInfo,
        ControlType::SetIsSm,
        ControlType::GetPKeys,
    ];
    for (i, kind) in kinds.iter().enumerate() {
        assert_eq!(kind.as_raw(), i as u32);
        assert_eq!(ControlType::try_from(i as u32), Ok(*kind));
    }
    assert_eq!(ControlType::SetIsSm.as_raw(), sys::SIM_CTL_SET_ISSM as u32);
    assert_eq!(
        ControlType::try_from(sys::SIM_CTL_LAST as u32),
        Err(Error::UnknownControlType(11))
    );
    assert_eq!(
        ControlType::try_from(u32::MAX),
        Err(Error::UnknownControlType(u32::MAX))
    );
}

#[test]
fn control_message_new() {
    let message = ControlMessage::new(5, ControlType::GetGid, &[1_u8, 2, 3]).unwrap();
    assert_eq!(message.client_id(), 5);
    assert_eq!(message.kind(), ControlType::GetGid);
    assert_eq!(message.data(), &[1_u8, 2, 3]);
    assert_eq!(
        ControlMessage::new(5, ControlType::GetGid, &[0_u8; CONTROL_DATA_CAPACITY + 1]),
        Err(Error::ControlDataTooLong(CONTROL_DATA_CAPACITY + 1))
    );
    assert!(ControlMessage::new(5, ControlType::GetGid, &[0_u8; CONTROL_DATA_CAPACITY]).is_ok());
}

#[test]
fn query_builders() {
    let cases = [
        (ControlMessage::disconnect(2), ControlType::Disconnect, 0),
        (ControlMessage::get_port(2), ControlType::GetPort, 4),
        (ControlMessage::get_vendor(2), ControlType::GetVendor, 20 + u64_pad()),
        (ControlMessage::get_gid(2), ControlType::GetGid, 16),
        (ControlMessage::get_guid(2), ControlType::GetGuid, 8),
        (ControlMessage::get_node_info(2), ControlType::GetNodeInfo, 64),
        (ControlMessage::get_pkeys(2), ControlType::GetPKeys, 64),
    ];
    for (message, kind, len) in cases.iter() {
        assert_eq!(message.client_id(), 2);
        assert_eq!(message.kind(), *kind);
        assert_eq!(message.data().len(), *len);
        assert!(message.data().iter().all(|&b| b == 0));
        assert_eq!(&ControlMessage::decode(&message.encode()).unwrap(), message);
    }
}

#[test]
fn port_info_query_carries_port_number() {
    let message = ControlMessage::get_port_info(8, 3);
    assert_eq!(message.kind(), ControlType::GetPortInfo);
    assert_eq!(message.data().len(), 64);
    assert_eq!(message.data()[0], 3);
    assert!(message.data()[1..].iter().all(|&b| b == 0));
}

#[test]
fn set_is_sm_payload() {
    let on = ControlMessage::set_is_sm(4, true);
    assert_eq!(on.kind(), ControlType::SetIsSm);
    assert_eq!(on.data(), &1_u32.to_ne_bytes());
    let off = ControlMessage::set_is_sm(4, false);
    assert_eq!(off.data(), &0_u32.to_ne_bytes());
}

#[test]
fn control_layout() {
    let message = ControlMessage::new(0x55, ControlType::GetGuid, &[7_u8, 8]).unwrap();
    let bytes = message.encode();
    assert_eq!(&bytes[0..4], &sys::SIM_MAGIC.to_ne_bytes());
    assert_eq!(&bytes[4..8], &0x55_u32.to_ne_bytes());
    assert_eq!(&bytes[8..12], &6_u32.to_ne_bytes());
    assert_eq!(&bytes[12..16], &2_u32.to_ne_bytes());
    assert_eq!(&bytes[16..18], &[7_u8, 8]);
    assert!(bytes[18..].iter().all(|&b| b == 0));
}

#[test]
fn control_decode_checks() {
    let good = ControlMessage::get_guid(1).encode();
    let mut unknown = good.clone();
    unknown[8..12].copy_from_slice(&11_u32.to_ne_bytes());
    assert_eq!(
        ControlMessage::decode(&unknown),
        Err(Error::UnknownControlType(11))
    );
    let mut long = good.clone();
    long[12..16].copy_from_slice(&65_u32.to_ne_bytes());
    assert_eq!(
        ControlMessage::decode(&long),
        Err(Error::ControlDataTooLong(65))
    );
    let mut magic = good.clone();
    magic[0..4].copy_from_slice(&0x1234_u32.to_ne_bytes());
    assert_eq!(
        ControlMessage::decode(&magic),
        Err(Error::InvalidMagic(0x1234))
    );
}

#[test]
fn decode_payload_reports_payload_errors() {
    let message = ControlMessage::get_vendor(1);
    let vendor: VendorInfo = message.decode_payload().unwrap();
    assert_eq!(vendor.vendor_id, 0);
    assert_eq!(
        message.decode_payload::<PortInfo>(),
        Err(Error::InvalidWireSize { expected: 4, actual: 20 + u64_pad() })
    );
}

#[test]
fn client_info_accessors() {
    let info = ClientInfo::new(3, 4, true, b"hca-0").unwrap();
    assert_eq!(info.id(), 3);
    assert_eq!(info.qp(), 4);
    assert!(info.is_sm());
    assert_eq!(info.node_id(), b"hca-0");
    assert_eq!(info.node_id_str(), Some("hca-0"));
    let raw = ClientInfo::new(3, 4, false, &[0xff_u8, 0xfe]).unwrap();
    assert_eq!(raw.node_id_str(), None);
    assert_eq!(raw.clone(), raw);
}

#[test]
fn client_info_rules() {
    assert_eq!(
        ClientInfo::new(0, 0, false, b"a\0b"),
        Err(Error::NodeIdContainsNul)
    );
    assert_eq!(
        ClientInfo::new(0, 0, false, &[0_u8; 40]),
        Err(Error::NodeIdTooLong(40))
    );
    assert!(ClientInfo::new(0, 0, false, &[b'n'; NODE_ID_CAPACITY]).is_ok());
    assert!(ClientInfo::new(0, 0, false, b"").is_ok());
}

#[test]
fn client_info_layout_and_decode() {
    let info = ClientInfo::new(1, 2, true, b"ab").unwrap();
    let bytes = info.encode();
    assert_eq!(&bytes[0..4], &1_u32.to_ne_bytes());
    assert_eq!(&bytes[4..8], &2_u32.to_ne_bytes());
    assert_eq!(&bytes[8..12], &1_u32.to_ne_bytes());
    assert_eq!(&bytes[12..14], b"ab");
    assert!(bytes[14..].iter().all(|&b| b == 0));

    let mut other = bytes.clone();
    other[8..12].copy_from_slice(&7_u32.to_ne_bytes());
    other[15] = b'z';
    let decoded = ClientInfo::decode(&other).unwrap();
    assert!(decoded.is_sm());
    assert_eq!(decoded.node_id(), b"ab");

    let mut full = bytes.clone();
    for b in full[12..44].iter_mut() {
        *b = b'q';
    }
    assert_eq!(ClientInfo::decode(&full), Err(Error::NodeIdNotTerminated));

    let max = ClientInfo::new(9, 9, false, &[b'm'; NODE_ID_CAPACITY]).unwrap();
    assert_eq!(ClientInfo::decode(&max.encode()).unwrap(), max);
}

#[test]
fn error_messages() {
    assert_eq!(
        Error::InvalidWireSize { expected: 80, actual: 3 }.message(),
        "invalid wire size: expected 80 bytes, got 3"
    );
    assert_eq!(
        Error::InvalidMagic(0xdead_beef).message(),
        "invalid ibsim control magic 0xdeadbeef"
    );
    assert_eq!(
        Error::InvalidMagic(0x12).message(),
        "invalid ibsim control magic 0x00000012"
    );
    assert_eq!(
        Error::UnknownControlType(11).message(),
        "unknown ibsim control type 11"
    );
    assert_eq!(
        Error::UnknownControlType(0).message(),
        "unknown ibsim control type 0"
    );
    assert_eq!(
        Error::UnknownControlType(u32::MAX).message(),
        "unknown ibsim control type 4294967295"
    );
    assert_eq!(
        Error::InvalidMagic(0).message(),
        "invalid ibsim control magic 0x00000000"
    );
    assert_eq!(
        Error::InvalidMagic(0xabcd_ef09).message(),
        "invalid ibsim control magic 0xabcdef09"
    );
    assert_eq!(
        Error::InvalidMadLength(u64::MAX).message(),
        "wire MAD length 18446744073709551615 exceeds 256"
    );
    assert_eq!(
        Error::ControlDataTooLong(65).message(),
        "control payload is 65 bytes; maximum is 64"
    );
    assert_eq!(
        Error::MadTooLong(257).message(),
        "MAD payload is 257 bytes; maximum is 256"
    );
    assert_eq!(
        Error::InvalidMadLength(300).message(),
        "wire MAD length 300 exceeds 256"
    );
    assert_eq!(
        Error::NodeIdTooLong(32).message(),
        "node ID is 32 bytes; maximum is 31"
    );
    assert_eq!(
        Error::NodeIdContainsNul.message(),
        "node ID contains an interior NUL byte"
    );
    assert_eq!(
        Error::NodeIdNotTerminated.message(),
        "wire node ID is not NUL terminated"
    );
}

#[test]
fn raw_defaults_are_zero() {
    let ctl = sys::sim_ctl::default();
    assert_eq!(ctl.magic, 0);
    assert!(ctl.data.iter().all(|&c| c == 0));
    let request = sys::sim_request::default();
    assert_eq!(request.length, 0);
    assert!(request.mad.iter().all(|&c| c == 0));
    let info = sys::sim_client_info::default();
    assert!(info.nodeid.iter().all(|&c| c == 0));
    assert_eq!(sys::sim_vendor::default().fw_ver, 0);
    assert_eq!(sys::sim_port::default().state, 0);
}
