use antielectrophile::arp::{
    build_arp_frame, ArpFrameSpec, ArpOperation, HardwareType, ProtocolType,
};
use antielectrophile::frame::{assemble_frame, decode, DecodeError, DecodedFrame, UpperLayers};
use antielectrophile::link::LinkLayerView;

fn udp_frame(source: [u8; 6], destination: [u8; 6]) -> Vec<u8> {
    let builder = etherparse::PacketBuilder::ethernet2(source, destination)
        .ipv4([192, 168, 1, 1], [192, 168, 1, 2], 20)
        .udp(21, 1234);
    let payload = [1u8, 2, 3, 4, 5, 6, 7, 8];
    let mut frame = Vec::with_capacity(builder.size(payload.len()));
    builder.write(&mut frame, &payload).unwrap();
    frame
}

fn ethernet_link() -> LinkLayerView {
    LinkLayerView {
        source: Some([1, 2, 3, 4, 5, 6]),
        destination: Some([7, 8, 9, 10, 11, 12]),
        ether_type: Some(0x0800),
    }
}

#[test]
fn decodes_every_layer_of_a_udp_frame() {
    let raw = udp_frame([1, 2, 3, 4, 5, 6], [7, 8, 9, 10, 11, 12]);
    let frame = decode(&raw).unwrap();
    assert_eq!(frame.link(), ethernet_link());
    assert!(frame.link_extensions().is_empty());
    let sliced = etherparse::SlicedPacket::from_ethernet(&raw).unwrap();
    assert_eq!(frame.network(), &Some(format!("{:?}", sliced.net.unwrap())));
    assert_eq!(frame.transport(), &Some(format!("{:?}", sliced.transport.unwrap())));
    assert!(frame.network().as_ref().unwrap().starts_with("Ipv4("));
    assert!(frame.transport().as_ref().unwrap().starts_with("Udp("));
}

#[test]
fn unknown_ether_type_leaves_upper_layers_absent() {
    let mut raw = vec![7u8, 8, 9, 10, 11, 12, 1, 2, 3, 4, 5, 6, 0x88, 0xb5];
    raw.extend_from_slice(&[0xde, 0xad, 0xbe, 0xef]);
    let frame = decode(&raw).unwrap();
    assert_eq!(
        frame.link(),
        LinkLayerView {
            source: Some([1, 2, 3, 4, 5, 6]),
            destination: Some([7, 8, 9, 10, 11, 12]),
            ether_type: Some(0x88b5),
        }
    );
    assert!(frame.link_extensions().is_empty());
    assert_eq!(frame.network(), &None);
    assert_eq!(frame.transport(), &None);
}

#[test]
fn header_alone_is_a_frame() {
    let raw = vec![7u8, 8, 9, 10, 11, 12, 1, 2, 3, 4, 5, 6, 0x12, 0x34];
    let frame = decode(&raw).unwrap();
    assert_eq!(frame.link().ether_type, Some(0x1234));
    assert_eq!(frame.network(), &None);
}

#[test]
fn buffer_shorter_than_the_header_is_malformed() {
    for len in 0usize..14 {
        let raw = vec![0u8; len];
        assert!(matches!(decode(&raw), Err(DecodeError::Malformed(_))));
    }
}

#[test]
fn truncated_network_layer_is_malformed() {
    let mut raw = udp_frame([1, 2, 3, 4, 5, 6], [7, 8, 9, 10, 11, 12]);
    let full = raw.len();
    raw.truncate(full - 4);
    let expected = format!("{:?}", etherparse::SlicedPacket::from_ethernet(&raw).unwrap_err());
    match decode(&raw) {
        Err(DecodeError::Malformed(reason)) => {
            assert!(!reason.is_empty());
            assert_eq!(reason, expected);
        }
        Ok(_) => panic!("a truncated frame was decoded"),
    }
}

#[test]
fn vlan_tag_is_a_link_extension() {
    let builder = etherparse::PacketBuilder::ethernet2([1, 2, 3, 4, 5, 6], [7, 8, 9, 10, 11, 12])
        .single_vlan(etherparse::VlanId::try_new(0x123).unwrap())
        .ipv4([10, 0, 0, 1], [10, 0, 0, 2], 64)
        .udp(1000, 2000);
    let mut raw = Vec::new();
    builder.write(&mut raw, &[9u8, 9, 9]).unwrap();
    let frame = decode(&raw).unwrap();
    assert_eq!(frame.link().ether_type, Some(0x8100));
    assert_eq!(frame.link_extensions().len(), 1);
    assert!(frame.link_extensions()[0].starts_with("Vlan("));
    assert!(frame.network().is_some());
    assert!(frame.transport().is_some());
}

#[test]
fn built_arp_frame_decodes_with_an_arp_network_layer() {
    let spec = ArpFrameSpec {
        ethernet_source: [1, 2, 3, 4, 5, 6],
        ethernet_destination: [0xff; 6],
        hardware_type: HardwareType::Ethernet,
        protocol_type: ProtocolType::Ipv4,
        operation: ArpOperation::Request,
        sender_hardware_address: vec![1, 2, 3, 4, 5, 6],
        sender_protocol_address: vec![192, 168, 1, 1],
        target_hardware_address: vec![0; 6],
        target_protocol_address: vec![192, 168, 1, 2],
    };
    let raw = build_arp_frame(&spec).unwrap();
    let frame = decode(&raw).unwrap();
    assert_eq!(
        frame.link(),
        LinkLayerView {
            source: Some([1, 2, 3, 4, 5, 6]),
            destination: Some([0xff; 6]),
            ether_type: Some(0x0806),
        }
    );
    assert!(frame.network().as_ref().unwrap().starts_with("Arp("));
    assert_eq!(frame.transport(), &None);
}

#[test]
fn transport_without_network_is_rejected() {
    let upper = UpperLayers {
        link_extensions: vec![],
        network: None,
        transport: Some("Udp".to_string()),
    };
    assert_eq!(
        DecodedFrame::new(ethernet_link(), upper),
        Err(DecodeError::Malformed(
            "transport layer present without a network layer".to_string()
        ))
    );
}

#[test]
fn layered_sections_make_a_frame() {
    let upper = UpperLayers {
        link_extensions: vec!["Vlan".to_string()],
        network: Some("Ipv4".to_string()),
        transport: Some("Tcp".to_string()),
    };
    let frame = DecodedFrame::new(ethernet_link(), upper).unwrap();
    assert_eq!(frame.link(), ethernet_link());
    assert_eq!(frame.link_extensions(), &vec!["Vlan".to_string()]);
    assert_eq!(frame.network(), &Some("Ipv4".to_string()));
    assert_eq!(frame.transport(), &Some("Tcp".to_string()));
    let upper = UpperLayers { link_extensions: vec![], network: None, transport: None };
    assert!(DecodedFrame::new(ethernet_link(), upper).is_ok());
}

#[test]
fn assembling_passes_a_slicing_failure_on() {
    let failed = assemble_frame(Some(ethernet_link()), Err("bad length".to_string()));
    assert_eq!(failed, Err(DecodeError::Malformed("bad length".to_string())));
    let failed = assemble_frame(None, Err("bad length".to_string()));
    assert_eq!(failed, Err(DecodeError::Malformed("bad length".to_string())));
}

#[test]
fn assembling_needs_a_header() {
    let upper = UpperLayers { link_extensions: vec![], network: None, transport: None };
    assert_eq!(
        assemble_frame(None, Ok(upper)),
        Err(DecodeError::Malformed("frame shorter than an Ethernet II header".to_string()))
    );
    let upper = UpperLayers {
        link_extensions: vec![],
        network: Some("Ipv6".to_string()),
        transport: None,
    };
    let frame = assemble_frame(Some(ethernet_link()), Ok(upper)).unwrap();
    assert_eq!(frame.network(), &Some("Ipv6".to_string()));
}

#[test]
fn ipv4_header_cut_short_is_malformed() {
    let mut raw = vec![7u8, 8, 9, 10, 11, 12, 1, 2, 3, 4, 5, 6, 0x08, 0x00];
    raw.extend_from_slice(&[0x45, 0, 0, 20, 0, 0, 0, 0, 64, 17]);
    assert!(matches!(decode(&raw), Err(DecodeError::Malformed(_))));
}

#[test]
fn ipv4_total_length_beyond_the_buffer_is_malformed() {
    let mut raw = vec![7u8, 8, 9, 10, 11, 12, 1, 2, 3, 4, 5, 6, 0x08, 0x00];
    raw.extend_from_slice(&[
        0x45, 0, 0, 60, 0, 0, 0, 0, 64, 253, 0, 0, 10, 0, 0, 1, 10, 0, 0, 2,
    ]);
    raw.extend_from_slice(&[0u8; 10]);
    assert!(matches!(decode(&raw), Err(DecodeError::Malformed(_))));
    raw[17] = 30;
    let frame = decode(&raw).unwrap();
    assert!(frame.network().is_some());
    assert_eq!(frame.transport(), &None);
}

#[test]
fn every_unannounced_ether_type_decodes_to_a_bare_frame() {
    let announced = [0x8100u16, 0x88a8, 0x9100, 0x88e5, 0x0806, 0x0800, 0x86dd];
    for ether_type in 0u16..=0xffff {
        if announced.contains(&ether_type) {
            continue;
        }
        let mut raw = vec![7u8, 8, 9, 10, 11, 12, 1, 2, 3, 4, 5, 6];
        raw.extend_from_slice(&ether_type.to_be_bytes());
        raw.extend_from_slice(&[1, 2, 3]);
        let frame = decode(&raw).unwrap();
        assert_eq!(frame.link().ether_type, Some(ether_type));
        assert!(frame.link_extensions().is_empty());
        assert_eq!(frame.network(), &None);
        assert_eq!(frame.transport(), &None);
    }
}

#[test]
fn ipv6_payload_length_beyond_the_buffer_is_malformed() {
    let mut raw = vec![7u8, 8, 9, 10, 11, 12, 1, 2, 3, 4, 5, 6, 0x86, 0xdd];
    let mut header = vec![0x60u8, 0, 0, 0, 0, 12, 59, 64];
    header.extend_from_slice(&[0u8; 32]);
    raw.extend_from_slice(&header);
    raw.extend_from_slice(&[0u8; 11]);
    assert!(matches!(decode(&raw), Err(DecodeError::Malformed(_))));
    raw.push(0);
    let frame = decode(&raw).unwrap();
    assert!(frame.network().as_ref().unwrap().starts_with("Ipv6("));
    raw.truncate(14 + 39);
    assert!(matches!(decode(&raw), Err(DecodeError::Malformed(_))));
    raw.truncate(14);
    assert!(matches!(decode(&raw), Err(DecodeError::Malformed(_))));
}

fn next_random(state: &mut u64) -> u64 {
    *state = state.wrapping_mul(6364136223846793005).wrapping_add(1442695040888963407);
    *state >> 33
}

#[test]
fn generated_frames_that_claim_too_much_are_malformed() {
    let mut state = 0x5eed_u64;
    let mut cut_short = 0;
    for round in 0..20000 {
        let len = 14 + (next_random(&mut state) % 80) as usize;
        let mut raw: Vec<u8> = (0..len).map(|_| next_random(&mut state) as u8).collect();
        let ipv4 = round % 2 == 0;
        raw[12] = if ipv4 { 0x08 } else { 0x86 };
        raw[13] = if ipv4 { 0x00 } else { 0xdd };
        if len > 14 {
            raw[14] = if ipv4 { 0x45 } else { 0x60 };
        }
        if len > 19 {
            raw[16] = 0;
            raw[18] = 0;
        }
        let held = len - 14;
        let claims_too_much = if ipv4 {
            held < 20 || (raw[16] as usize) * 256 + (raw[17] as usize) > held
        } else {
            held < 40 || held < 40 + (raw[18] as usize) * 256 + (raw[19] as usize)
        };
        if claims_too_much {
            cut_short += 1;
            assert!(matches!(decode(&raw), Err(DecodeError::Malformed(_))), "{:?}", raw);
        }
        match decode(&raw) {
            Ok(frame) => {
                assert_eq!(frame.link().source.unwrap().to_vec(), raw[6..12].to_vec());
                assert_eq!(frame.link().destination.unwrap().to_vec(), raw[0..6].to_vec());
                assert!(frame.transport().is_none() || frame.network().is_some());
            }
            Err(DecodeError::Malformed(reason)) => assert!(!reason.is_empty()),
        }
    }
    assert!(cut_short > 1000);
}
