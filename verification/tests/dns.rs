use bytes::Bytes;
use dns_message_parser::question::{QClass, QType, Question};
use dns_message_parser::rr::RR;
use dns_message_parser::{Dns, DomainName, Flags, Opcode, RCode};
use swiftdns::dns::resolver::DnsAnswer;
use swiftdns::dns::{decode, encode, group_answers, EncodeError, Reply, ResponseCode, WireQuestion};

fn asked(name: &str, qtype: u16) -> WireQuestion {
    WireQuestion {
        name: name.to_string(),
        qtype,
        qclass: 1,
        wire: Question {
            domain_name: name.parse().unwrap(),
            q_class: QClass::IN,
            q_type: QType::try_from(qtype).unwrap(),
        },
    }
}

fn record(name: &str, record_type: u16, ttl: u32, data: &str) -> DnsAnswer {
    DnsAnswer { domain_name: name.to_string(), record_type, ttl, data: data.to_string() }
}

fn reply(rcode: ResponseCode, questions: Vec<WireQuestion>, answers: Vec<DnsAnswer>) -> Reply {
    Reply { id: 0x1234, opcode: 0, tc: false, rd: true, cd: false, rcode, questions, answers }
}

fn query_datagram(id: u16, questions: Vec<Question>) -> Vec<u8> {
    let dns = Dns {
        id,
        flags: Flags {
            qr: false,
            opcode: Opcode::Query,
            aa: false,
            tc: false,
            rd: true,
            ra: false,
            ad: false,
            cd: true,
            rcode: RCode::NoError,
        },
        questions,
        answers: Vec::new(),
        authorities: Vec::new(),
        additionals: Vec::new(),
    };
    dns.encode().unwrap().to_vec()
}

#[test]
fn encoded_answer_decodes_to_the_same_address() {
    let sent = reply(
        ResponseCode::NoError,
        vec![asked("example.com.", 1)],
        vec![record("example.com", 1, 300, "93.184.216.34")],
    );
    let bytes = encode(&sent).unwrap();
    let message = Dns::decode(Bytes::from(bytes)).unwrap();
    assert_eq!(message.answers.len(), 1);
    match &message.answers[0] {
        RR::A(a) => {
            assert_eq!(a.ipv4_addr.to_string(), "93.184.216.34");
            assert_eq!(a.ttl, 300);
            assert_eq!(a.domain_name.to_string(), "example.com.");
        }
        other => panic!("unexpected record: {other}"),
    }
}

#[test]
fn reply_sets_the_response_flags_and_echoes_the_rest() {
    let sent = Reply {
        id: 0xBEEF,
        opcode: 0,
        tc: true,
        rd: false,
        cd: true,
        rcode: ResponseCode::Refused,
        questions: vec![asked("example.com.", 28)],
        answers: Vec::new(),
    };
    let message = Dns::decode(Bytes::from(encode(&sent).unwrap())).unwrap();
    assert_eq!(message.id, 0xBEEF);
    assert!(message.flags.qr);
    assert!(message.flags.aa);
    assert!(message.flags.ra);
    assert!(message.flags.ad);
    assert!(message.flags.tc);
    assert!(!message.flags.rd);
    assert!(message.flags.cd);
    assert_eq!(message.flags.opcode, Opcode::Query);
    assert_eq!(message.flags.rcode, RCode::Refused);
    assert_eq!(message.questions.len(), 1);
    assert_eq!(message.questions[0].domain_name.to_string(), "example.com.");
    assert_eq!(message.questions[0].q_type, QType::AAAA);
    assert_eq!(message.questions[0].q_class, QClass::IN);
    assert!(message.answers.is_empty());
    assert!(message.authorities.is_empty());
    assert!(message.additionals.is_empty());
}

#[test]
fn reply_bytes_are_those_of_the_wire_format() {
    let sent = reply(
        ResponseCode::NoError,
        vec![asked("example.com.", 1)],
        vec![record("example.com", 1, 300, "93.184.216.34")],
    );
    let expected: Vec<u8> = vec![
        0x12, 0x34, // id
        0x85, 0xA0, // QR, AA, RD; RA, AD, NoError
        0x00, 0x01, 0x00, 0x01, 0x00, 0x00, 0x00, 0x00, // counts
        0x07, b'e', b'x', b'a', b'm', b'p', b'l', b'e', 0x03, b'c', b'o', b'm', 0x00, // name
        0x00, 0x01, 0x00, 0x01, // A, IN
        0xC0, 0x0C, // the name of the question
        0x00, 0x01, 0x00, 0x01, // A, IN
        0x00, 0x00, 0x01, 0x2C, // 300
        0x00, 0x04, 93, 184, 216, 34,
    ];
    assert_eq!(encode(&sent).unwrap(), expected);
}

#[test]
fn status_codes_on_the_wire() {
    for (rcode, expected) in [
        (ResponseCode::NoError, RCode::NoError),
        (ResponseCode::FormErr, RCode::FormErr),
        (ResponseCode::NXDomain, RCode::NXDomain),
        (ResponseCode::NotImp, RCode::NotImp),
        (ResponseCode::Refused, RCode::Refused),
    ] {
        let bytes = encode(&reply(rcode, vec![asked("example.com.", 1)], Vec::new())).unwrap();
        assert_eq!(Dns::decode(Bytes::from(bytes)).unwrap().flags.rcode, expected);
    }
    assert_eq!(ResponseCode::NoError.value(), 0);
    assert_eq!(ResponseCode::FormErr.value(), 1);
    assert_eq!(ResponseCode::NXDomain.value(), 3);
    assert_eq!(ResponseCode::NotImp.value(), 4);
    assert_eq!(ResponseCode::Refused.value(), 5);
}

#[test]
fn ipv6_answer_is_written_in_sixteen_bytes() {
    let sent = reply(
        ResponseCode::NoError,
        vec![asked("example.com.", 28)],
        vec![record("example.com", 28, 60, "2606:2800:220:1:248:1893:25c8:1946")],
    );
    let bytes = encode(&sent).unwrap();
    let tail = &bytes[bytes.len() - 18..];
    assert_eq!(
        tail,
        &[
            0x00, 0x10, 0x26, 0x06, 0x28, 0x00, 0x02, 0x20, 0x00, 0x01, 0x02, 0x48, 0x18, 0x93,
            0x25, 0xc8, 0x19, 0x46
        ]
    );
    let message = Dns::decode(Bytes::from(bytes)).unwrap();
    match &message.answers[0] {
        RR::AAAA(a) => assert_eq!(a.ipv6_addr.to_string(), "2606:2800:220:1:248:1893:25c8:1946"),
        other => panic!("unexpected record: {other}"),
    }
}

#[test]
fn records_of_other_types_are_left_out() {
    let answers = vec![
        record("example.com", 5, 300, "www.example.com."),
        record("www.example.com", 1, 300, "93.184.216.34"),
        record("www.example.com", 46, 300, "A 13 3 300 ..."),
        record("www.example.com", 28, 300, "::1"),
    ];
    let group = group_answers(&answers).unwrap();
    assert_eq!(group.len(), 2);
    assert!(matches!(&group[0], RR::A(a) if a.ipv4_addr.to_string() == "93.184.216.34"));
    assert!(matches!(&group[1], RR::AAAA(a) if a.ipv6_addr.to_string() == "::1"));
    assert!(group_answers(&Vec::new()).unwrap().is_empty());
}

#[test]
fn malformed_address_fails_loudly() {
    let answers = vec![
        record("example.com", 1, 300, "93.184.216.34"),
        record("example.com", 1, 300, "93.184.216.340"),
        record("example.com", 1, 300, "nonsense"),
    ];
    assert_eq!(group_answers(&answers).unwrap_err(), EncodeError::Answer(1));
    let sent = reply(ResponseCode::NoError, vec![asked("example.com.", 1)], answers);
    assert_eq!(encode(&sent).unwrap_err(), EncodeError::Answer(1));
    // an IPv6 text is no IPv4 address, and the other way round
    assert_eq!(
        group_answers(&vec![record("example.com", 1, 300, "::1")]).unwrap_err(),
        EncodeError::Answer(0)
    );
    assert_eq!(
        group_answers(&vec![record("example.com", 28, 300, "1.2.3.4")]).unwrap_err(),
        EncodeError::Answer(0)
    );
    // the address of a record that is left out is not looked at
    assert!(group_answers(&vec![record("example.com", 5, 300, "nonsense")]).unwrap().is_empty());
}

#[test]
fn malformed_record_name_fails_loudly() {
    let answers = vec![record("exa..mple.com", 1, 300, "93.184.216.34")];
    assert_eq!(group_answers(&answers).unwrap_err(), EncodeError::Answer(0));
}

#[test]
fn reply_echoes_the_question_as_decoded() {
    // the root name, which has no label
    let root = query_datagram(
        7,
        vec![Question {
            domain_name: DomainName::default(),
            q_class: QClass::CH,
            q_type: QType::NS,
        }],
    );
    let query = decode(&root).unwrap();
    assert_eq!(query.questions[0].name, ".");
    assert_eq!(query.questions[0].qtype, 2);
    assert_eq!(query.questions[0].qclass, 3);
    let sent = reply(ResponseCode::NotImp, query.questions, Vec::new());
    let bytes = encode(&sent).unwrap();
    assert_eq!(&bytes[12..], &root[12..]);
    let message = Dns::decode(Bytes::from(bytes)).unwrap();
    assert!(message.questions[0].domain_name.is_root());
    assert_eq!(message.questions[0].q_type, QType::NS);
    assert_eq!(message.questions[0].q_class, QClass::CH);
}

#[test]
fn reply_echoes_the_decoded_entry_whatever_the_text_beside_it() {
    let mut question = asked("example.org.", 1);
    question.name = "something.else.".to_string();
    question.qtype = 28;
    let bytes = encode(&reply(ResponseCode::NoError, vec![question], Vec::new())).unwrap();
    let message = Dns::decode(Bytes::from(bytes)).unwrap();
    assert_eq!(message.questions[0].domain_name.to_string(), "example.org.");
    assert_eq!(message.questions[0].q_type, QType::A);
}

#[test]
fn question_clone_keeps_the_decoded_entry() {
    let question = asked("example.org.", 28);
    let copy = question.clone();
    assert_eq!(copy.name, "example.org.");
    assert_eq!(copy.qtype, 28);
    assert_eq!(copy.qclass, 1);
    assert_eq!(copy.wire, question.wire);
}

#[test]
fn unknown_opcode_has_no_wire_form() {
    let mut sent = reply(ResponseCode::NoError, vec![asked("example.com.", 1)], Vec::new());
    sent.opcode = 3;
    assert_eq!(encode(&sent).unwrap_err(), EncodeError::Message);
}

#[test]
fn decode_reads_id_flags_and_questions() {
    let datagram = query_datagram(
        0x4242,
        vec![Question {
            domain_name: "Example.COM".parse().unwrap(),
            q_class: QClass::IN,
            q_type: QType::AAAA,
        }],
    );
    let query = decode(&datagram).unwrap();
    assert_eq!(query.id, 0x4242);
    assert_eq!(query.opcode, 0);
    assert!(!query.tc);
    assert!(query.rd);
    assert!(query.cd);
    assert_eq!(query.questions.len(), 1);
    assert_eq!(query.questions[0].name, "Example.COM.");
    assert_eq!(query.questions[0].qtype, 28);
    assert_eq!(query.questions[0].qclass, 1);
    assert_eq!(query.questions[0].wire.domain_name.to_string(), "Example.COM.");
    assert_eq!(query.questions[0].wire.q_type, QType::AAAA);
    assert_eq!(query.questions[0].wire.q_class, QClass::IN);
}

#[test]
fn decode_reads_the_bytes_of_a_query() {
    let datagram: Vec<u8> = vec![
        0xAB, 0xCD, 0x01, 0x00, 0x00, 0x01, 0x00, 0x00, 0x00, 0x00, 0x00, 0x00, 0x06, b's', b'i',
        b'g', b'n', b'a', b'l', 0x03, b'o', b'r', b'g', 0x00, 0x00, 0x01, 0x00, 0x01,
    ];
    let query = decode(&datagram).unwrap();
    assert_eq!(query.id, 0xABCD);
    assert!(query.rd && !query.tc && !query.cd);
    assert_eq!(query.questions.len(), 1);
    assert_eq!(query.questions[0].name, "signal.org.");
    assert_eq!(query.questions[0].qtype, 1);
}

#[test]
fn decode_rejects_what_is_no_message() {
    assert!(decode(&[]).is_err());
    assert!(decode(&[0x00; 11]).is_err());
    // twelve bytes are a header, and a header alone is a message
    assert!(decode(&[0x00; 12]).is_ok());
    // a header that announces a question that is not there
    assert!(decode(&[0xAB, 0xCD, 0x01, 0x00, 0x00, 0x01, 0, 0, 0, 0, 0, 0]).is_err());
    // bytes after the end of the message
    let mut datagram = query_datagram(
        1,
        vec![Question {
            domain_name: "example.com".parse().unwrap(),
            q_class: QClass::IN,
            q_type: QType::A,
        }],
    );
    assert!(decode(&datagram).is_ok());
    datagram.push(0);
    assert!(decode(&datagram).is_err());
}

#[test]
fn decode_keeps_every_question() {
    let question = |name: &str| Question {
        domain_name: name.parse().unwrap(),
        q_class: QClass::IN,
        q_type: QType::A,
    };
    let datagram = query_datagram(9, vec![question("a.example.com"), question("b.example.com")]);
    let query = decode(&datagram).unwrap();
    assert_eq!(query.questions.len(), 2);
    assert_eq!(query.questions[0].name, "a.example.com.");
    assert_eq!(query.questions[1].name, "b.example.com.");
    let empty = decode(&query_datagram(9, Vec::new())).unwrap();
    assert!(empty.questions.is_empty());
}
