use mcscan::minecraft::{
    build_handshake_packet, extract_description, status_request, DescriptionValue, ExtraItem,
    FieldExtra, FieldText, PingError, Players, ServerStatus, Version,
};

#[test]
fn description_text_field_wins() {
    let desc = DescriptionValue {
        text: FieldText::Text(String::from("Hello")),
        extra: FieldExtra::Absent,
        raw: String::from("{\"text\":\"Hello\"}"),
    };
    assert_eq!(extract_description(&desc), "Hello");
}

#[test]
fn description_extra_texts_concatenate_in_order() {
    let desc = DescriptionValue {
        text: FieldText::Absent,
        extra: FieldExtra::Items(vec![
            ExtraItem { text: Some(String::from("A")) },
            ExtraItem { text: Some(String::from("B")) },
        ]),
        raw: String::from("{\"extra\":[{\"text\":\"A\"},{\"text\":\"B\"}]}"),
    };
    assert_eq!(extract_description(&desc), "AB");
}

#[test]
fn description_without_either_field_falls_back_to_raw() {
    let desc = DescriptionValue {
        text: FieldText::Absent,
        extra: FieldExtra::Absent,
        raw: String::from("{\"translate\":\"multiplayer.title\"}"),
    };
    assert_eq!(extract_description(&desc), "{\"translate\":\"multiplayer.title\"}");
}

#[test]
fn description_with_non_string_text_is_empty() {
    let desc = DescriptionValue {
        text: FieldText::NonString,
        extra: FieldExtra::Absent,
        raw: String::from("{\"text\":7}"),
    };
    assert_eq!(extract_description(&desc), "");
}

#[test]
fn description_extra_skips_elements_without_text() {
    let desc = DescriptionValue {
        text: FieldText::Absent,
        extra: FieldExtra::Items(vec![
            ExtraItem { text: Some(String::from("A")) },
            ExtraItem { text: None },
            ExtraItem { text: Some(String::from("C")) },
        ]),
        raw: String::new(),
    };
    assert_eq!(extract_description(&desc), "AC");
}

#[test]
fn description_with_non_array_extra_falls_back_to_raw() {
    let desc = DescriptionValue {
        text: FieldText::Absent,
        extra: FieldExtra::NonArray,
        raw: String::from("\"plain\""),
    };
    assert_eq!(extract_description(&desc), "\"plain\"");
}

#[test]
fn handshake_packet_is_byte_exact() {
    // protocol 770, address "127.0.0.1" (9 bytes), port 25565 = 0x63DD.
    let packet = build_handshake_packet(770, "127.0.0.1", 25565);
    let mut expected: Vec<u8> = Vec::new();
    expected.push(16); // body length
    expected.push(0x00); // handshake packet id
    expected.extend_from_slice(&[0x82, 0x06]); // varint 770
    expected.push(9); // varint address length
    expected.extend_from_slice(b"127.0.0.1");
    expected.extend_from_slice(&[0x63, 0xDD]); // port, big-endian
    expected.push(0x01); // next state: status
    assert_eq!(packet, expected);
}

#[test]
fn handshake_packet_ends_with_status_state() {
    let packet = build_handshake_packet(47, "203.0.113.9", 80);
    assert_eq!(*packet.last().unwrap(), 0x01);
    assert_eq!(packet[1], 0x00);
}

#[test]
fn status_request_is_two_fixed_bytes() {
    assert_eq!(status_request(), vec![0x01, 0x00]);
}

#[test]
fn ping_error_messages_match_their_kind() {
    assert_eq!(PingError::Timeout.message(), "Timeout");
    assert_eq!(PingError::ConnectionRefused.message(), "Connection refused");
    assert_eq!(
        PingError::NetworkError(String::from("broken pipe")).message(),
        "Network error: broken pipe"
    );
    assert_eq!(
        PingError::ProtocolError(String::from("VarInt too big")).message(),
        "Protocol error: VarInt too big"
    );
}

#[test]
fn server_status_carries_its_fields() {
    let status = ServerStatus {
        version: Version { name: String::from("1.21.4") },
        players: Players { max: 20, online: 3 },
        description: DescriptionValue {
            text: FieldText::Text(String::from("hi")),
            extra: FieldExtra::Absent,
            raw: String::new(),
        },
    };
    assert_eq!(status.version.name, "1.21.4");
    assert_eq!(status.players.online, 3);
    assert_eq!(status.players.max, 20);
}
