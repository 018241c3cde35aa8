use dns_protocol::{Flags, LabelSegment, Message, Question, ResourceRecord, ResourceType};
use esp_hal_mdns::name::split_labels;
use esp_hal_mdns::query::{decode_response, txt_value};
use esp_hal_mdns::response::{LabelPart, Record, Response, extract, lookup};
use esp_hal_mdns::txt::parse_txt;
use esp_hal_mdns::{MdnsError, MdnsQuery};

const SERVICE: &str = "_stackmat._tcp.local";

fn response_bytes(answer_name: &str, additional: &[(ResourceType, &[u8])]) -> Vec<u8> {
    let mut answers = [ResourceRecord::new(answer_name, ResourceType::Ptr, 1, 120, b"\x00")];
    let mut extra: Vec<ResourceRecord> = additional
        .iter()
        .map(|(ty, data)| ResourceRecord::new("host.local", *ty, 1, 120, data))
        .collect();
    let msg = Message::new(0, Flags::default(), &mut [], &mut answers, &mut [], &mut extra);
    let mut buf = vec![0u8; msg.space_needed()];
    let n = msg.write(&mut buf).unwrap();
    buf.truncate(n);
    buf
}

fn text(r: &Option<heapless::String<255>>) -> Option<&str> {
    r.as_ref().map(|s| s.as_str())
}

fn plain(label: &str) -> LabelPart {
    LabelPart::Text(label.as_bytes().to_vec())
}

#[test]
fn first_call_sends_at_any_time() {
    for now in [0u64, 1, 2500, u64::MAX] {
        let mut q = MdnsQuery::new(SERVICE, 2500).unwrap();
        assert!(q.should_send_mdns_packet(now).is_some());
        assert!(q.should_send_mdns_packet(now).is_none());
    }
}

#[test]
fn resend_only_after_interval() {
    let mut q = MdnsQuery::new(SERVICE, 2500).unwrap();
    assert!(q.should_send_mdns_packet(1000).is_some());
    assert!(q.should_send_mdns_packet(3500).is_none());
    assert!(q.should_send_mdns_packet(3501).is_some());
    assert!(q.should_send_mdns_packet(6001).is_none());
    assert!(q.should_send_mdns_packet(6002).is_some());
}

#[test]
fn clock_going_back_does_not_send() {
    let mut q = MdnsQuery::new(SERVICE, 10).unwrap();
    assert!(q.should_send_mdns_packet(5000).is_some());
    assert!(q.should_send_mdns_packet(100).is_none());
}

#[test]
fn encoded_query_bytes() {
    let mut q = MdnsQuery::new(SERVICE, 2500).unwrap();
    let mut expected = vec![0u8, 0, 0, 0, 0, 1, 0, 0, 0, 0, 0, 0];
    expected.extend_from_slice(b"\x09_stackmat\x04_tcp\x05local\x00");
    expected.extend_from_slice(&[0, 12, 0x80, 0x01]);
    assert_eq!(q.should_send_mdns_packet(0).unwrap(), expected.as_slice());
    assert_eq!(q.query_str(), SERVICE);
}

#[test]
fn encoded_query_decodes_to_its_labels() {
    let mut q = MdnsQuery::new(SERVICE, 2500).unwrap();
    let bytes = q.should_send_mdns_packet(0).unwrap().to_vec();
    let mut questions = [Question::default(); 1];
    let msg = Message::read(&bytes, &mut questions, &mut [], &mut [], &mut []).unwrap();
    assert_eq!(msg.questions().len(), 1);
    let labels: Vec<&str> = msg.questions()[0]
        .name()
        .segments()
        .filter_map(|s| match s {
            LabelSegment::String(t) => Some(t),
            _ => None,
        })
        .collect();
    assert_eq!(labels, vec!["_stackmat", "_tcp", "local"]);
    assert_eq!(msg.questions()[0].ty(), ResourceType::Ptr);
    assert_eq!(msg.questions()[0].class(), 0x8001);
}

#[test]
fn invalid_names_are_refused() {
    let long = "a".repeat(64);
    for name in ["", "a..b", ".local", "local.", long.as_str()] {
        assert_eq!(MdnsQuery::new(name, 10).err(), Some(MdnsError::InvalidName));
    }
    assert!(MdnsQuery::new(&"a".repeat(63), 10).is_ok());
}

#[test]
fn split_keeps_empty_pieces() {
    let labels = split_labels(b"a..bc.");
    assert_eq!(labels, vec![b"a".to_vec(), vec![], b"bc".to_vec(), vec![]]);
}

#[test]
fn full_extraction() {
    let q = MdnsQuery::new(SERVICE, 2500).unwrap();
    let data = response_bytes(
        SERVICE,
        &[
            (ResourceType::A, &[192, 168, 1, 50]),
            (ResourceType::Srv, &[0, 0, 0, 0, 0x1f, 0x90, 0]),
            (ResourceType::Txt, b"\x09version=3"),
        ],
    );
    let r = q.parse_mdns_query(&data, Some("version"));
    assert_eq!(r.0, [192, 168, 1, 50]);
    assert_eq!(r.1, 8080);
    assert_eq!(text(&r.2), Some("3"));
}

#[test]
fn reordered_labels_do_not_match() {
    let q = MdnsQuery::new(SERVICE, 2500).unwrap();
    let data = response_bytes(
        "_tcp._stackmat.local",
        &[(ResourceType::A, &[192, 168, 1, 50]), (ResourceType::Txt, b"\x09version=3")],
    );
    let r = q.parse_mdns_query(&data, Some("version"));
    assert_eq!(r, ([0; 4], 0, None));
}

#[test]
fn shorter_name_does_not_match() {
    let q = MdnsQuery::new(SERVICE, 2500).unwrap();
    let data = response_bytes("_stackmat._tcp", &[(ResourceType::A, &[10, 0, 0, 1])]);
    assert_eq!(q.parse_mdns_query(&data, None), ([0; 4], 0, None));
    let longer = response_bytes("_stackmat._tcp.local.extra", &[(ResourceType::A, &[10, 0, 0, 1])]);
    assert_eq!(q.parse_mdns_query(&longer, None), ([10, 0, 0, 1], 0, None));
}

#[test]
fn empty_answers_never_match() {
    let q = MdnsQuery::new(SERVICE, 2500).unwrap();
    let resp = Response {
        answers: vec![],
        additional: vec![Record { name: vec![plain("host"), LabelPart::End], rtype: 1, data: vec![1, 2, 3, 4] }],
    };
    assert!(!q.matches(&resp));
    assert_eq!(q.parse_response(&resp, None), ([0; 4], 0, None));

    let mut extra = [ResourceRecord::new("host.local", ResourceType::A, 1, 120, &[1, 2, 3, 4])];
    let msg = Message::new(0, Flags::default(), &mut [], &mut [], &mut [], &mut extra);
    let mut buf = vec![0u8; msg.space_needed()];
    let n = msg.write(&mut buf).unwrap();
    assert_eq!(q.parse_mdns_query(&buf[..n], None), ([0; 4], 0, None));
}

#[test]
fn empty_additional_never_matches() {
    let q = MdnsQuery::new(SERVICE, 2500).unwrap();
    let data = response_bytes(SERVICE, &[]);
    assert_eq!(q.parse_mdns_query(&data, None), ([0; 4], 0, None));
}

#[test]
fn pointer_segment_never_matches() {
    let q = MdnsQuery::new(SERVICE, 2500).unwrap();
    let resp = Response {
        answers: vec![Record { name: vec![plain("_stackmat"), LabelPart::Pointer(12)], rtype: 12, data: vec![] }],
        additional: vec![Record { name: vec![LabelPart::End], rtype: 1, data: vec![1, 2, 3, 4] }],
    };
    assert!(!q.matches(&resp));
    let named = Response {
        answers: vec![Record {
            name: vec![plain("_stackmat"), plain("_tcp"), plain("local"), LabelPart::End],
            rtype: 12,
            data: vec![],
        }],
        additional: vec![Record { name: vec![LabelPart::End], rtype: 1, data: vec![1, 2, 3, 4] }],
    };
    assert!(q.matches(&named));
    assert_eq!(q.parse_response(&named, None), ([1, 2, 3, 4], 0, None));
}

#[test]
fn segment_without_separator_is_whole_key() {
    let entries = parse_txt(b"\x04flag\x03a=b");
    assert_eq!(entries.len(), 2);
    assert_eq!(entries[0].key, b"flag".to_vec());
    assert_eq!(entries[0].value, Vec::<u8>::new());
    assert_eq!(entries[1].key, b"a".to_vec());
    assert_eq!(entries[1].value, b"b".to_vec());

    let q = MdnsQuery::new(SERVICE, 2500).unwrap();
    let data = response_bytes(SERVICE, &[(ResourceType::Txt, b"\x04flag\x03a=b")]);
    assert_eq!(text(&q.parse_mdns_query(&data, Some("flag")).2), Some(""));
    assert_eq!(text(&q.parse_mdns_query(&data, Some("a")).2), Some("b"));
}

#[test]
fn txt_splits_at_first_separator() {
    let entries = parse_txt(b"\x05k=v=w\x00");
    assert_eq!(entries.len(), 2);
    assert_eq!(entries[0].key, b"k".to_vec());
    assert_eq!(entries[0].value, b"v=w".to_vec());
    assert!(entries[1].key.is_empty() && entries[1].value.is_empty());
}

#[test]
fn truncated_txt_segment_ends_the_record() {
    let entries = parse_txt(b"\x03a=b\x09cut");
    assert_eq!(entries.len(), 1);
    assert_eq!(entries[0].value, b"b".to_vec());
    assert!(parse_txt(b"").is_empty());
}

#[test]
fn first_matching_txt_key_wins() {
    let q = MdnsQuery::new(SERVICE, 2500).unwrap();
    let data = response_bytes(
        SERVICE,
        &[(ResourceType::Txt, b"\x04ws=1\x04ws=2"), (ResourceType::Txt, b"\x04ws=3")],
    );
    assert_eq!(text(&q.parse_mdns_query(&data, Some("ws")).2), Some("1"));
    assert_eq!(q.parse_mdns_query(&data, Some("other")).2, None);
    assert_eq!(q.parse_mdns_query(&data, None).2, None);
}

#[test]
fn last_address_and_port_win() {
    let q = MdnsQuery::new(SERVICE, 2500).unwrap();
    let data = response_bytes(
        SERVICE,
        &[
            (ResourceType::A, &[10, 0, 0, 1]),
            (ResourceType::Srv, &[0, 0, 0, 0, 0, 80]),
            (ResourceType::A, &[10, 0, 0, 2]),
            (ResourceType::Srv, &[0, 1, 0, 2, 0x01, 0xbb]),
            (ResourceType::Srv, &[0, 0, 0, 0, 9]),
            (ResourceType::A, &[10, 0, 0]),
        ],
    );
    assert_eq!(q.parse_mdns_query(&data, None), ([10, 0, 0, 2], 443, None));
}

#[test]
fn extract_collects_all_entries() {
    let additional = vec![
        Record { name: vec![LabelPart::End], rtype: 16, data: b"\x03a=1\x01b".to_vec() },
        Record { name: vec![LabelPart::End], rtype: 1, data: vec![9, 9, 9, 9] },
        Record { name: vec![LabelPart::End], rtype: 16, data: b"\x03c=3".to_vec() },
    ];
    let info = extract(&additional);
    assert_eq!(info.ip, [9, 9, 9, 9]);
    assert_eq!(info.port, 0);
    let keys: Vec<Vec<u8>> = info.txt.iter().map(|e| e.key.clone()).collect();
    assert_eq!(keys, vec![b"a".to_vec(), b"b".to_vec(), b"c".to_vec()]);
    assert_eq!(lookup(&info.txt, b"c"), Some(b"3".to_vec()));
    assert_eq!(lookup(&info.txt, b"z"), None);
}

#[test]
fn invalid_utf8_value_becomes_empty() {
    let q = MdnsQuery::new(SERVICE, 2500).unwrap();
    let data = response_bytes(SERVICE, &[(ResourceType::Txt, b"\x04k=\xff\xfe"), (ResourceType::A, &[1, 1, 1, 1])]);
    let r = q.parse_mdns_query(&data, Some("k"));
    assert_eq!(text(&r.2), Some(""));
    assert_eq!(r.0, [1, 1, 1, 1]);
}

#[test]
fn txt_value_text() {
    assert_eq!(txt_value(b"caf\xc3\xa9").as_str(), "café");
    assert_eq!(txt_value(b"\xc3").as_str(), "");
    assert_eq!(txt_value(&[b'x'; 255]).len(), 255);
    assert_eq!(txt_value(&[b'x'; 256]).as_str(), "");
}

#[test]
fn undecodable_datagram_gives_defaults() {
    let q = MdnsQuery::new(SERVICE, 2500).unwrap();
    assert_eq!(q.parse_mdns_query(&[0, 1, 2], Some("ws")), ([0; 4], 0, None));
    assert_eq!(decode_response(&[0, 1, 2]).err(), Some(MdnsError::Decode));
}

#[test]
fn sections_are_cut_to_sixteen_records() {
    let mut records: Vec<(ResourceType, &[u8])> = Vec::new();
    for _ in 0..16 {
        records.push((ResourceType::A, &[10, 0, 0, 1]));
    }
    records.push((ResourceType::A, &[10, 0, 0, 2]));
    let data = response_bytes(SERVICE, &records);
    let resp = decode_response(&data).unwrap();
    assert_eq!(resp.answers.len(), 1);
    assert_eq!(resp.additional.len(), 16);
    let q = MdnsQuery::new(SERVICE, 2500).unwrap();
    assert_eq!(q.parse_mdns_query(&data, None), ([10, 0, 0, 1], 0, None));
}

#[test]
fn decoded_records_hold_the_wire_values() {
    let data = response_bytes(SERVICE, &[(ResourceType::Srv, &[0, 0, 0, 0, 0x1f, 0x90])]);
    let resp = decode_response(&data).unwrap();
    let name = &resp.answers[0].name;
    assert_eq!(name.len(), 4);
    assert!(matches!(&name[0], LabelPart::Text(t) if t == b"_stackmat"));
    assert!(matches!(name[3], LabelPart::End));
    assert_eq!(resp.answers[0].rtype, 12);
    assert_eq!(resp.additional[0].rtype, 33);
    assert_eq!(resp.additional[0].data, vec![0, 0, 0, 0, 0x1f, 0x90]);
}

#[test]
fn datagram_over_sixty_four_kib_is_decoded() {
    let q = MdnsQuery::new(SERVICE, 2500).unwrap();
    let mut data = response_bytes(
        SERVICE,
        &[(ResourceType::A, &[192, 168, 1, 50]), (ResourceType::Txt, b"\x09version=3")],
    );
    data.resize(70000, 0);
    let r = q.parse_mdns_query(&data, Some("version"));
    assert_eq!(r.0, [192, 168, 1, 50]);
    assert_eq!(text(&r.2), Some("3"));
    assert_eq!(q.parse_mdns_query(&vec![0xffu8; 70000], None), ([0; 4], 0, None));
}
