use std::ops::ControlFlow;

use ntp_proto::arith::{div_ceil, next_multiple_of};
use ntp_proto::cookies::CookieStash;
use ntp_proto::exchange::{
    key_export_context, KeyExchangeError, KeyExchangeResult, KeyExchangeResultDecoder,
    PartialKeyExchangeData,
};
use ntp_proto::record::{NtsRecord, WriteError};

fn encode(record: &NtsRecord) -> Vec<u8> {
    let mut buffer = Vec::new();
    record.write(&mut buffer).unwrap();
    buffer
}

fn decode_one(bytes: &[u8]) -> NtsRecord {
    let (record, n) = NtsRecord::read(bytes).unwrap();
    assert_eq!(n, bytes.len());
    record
}

fn negotiate(records: &[NtsRecord]) -> Option<Result<PartialKeyExchangeData, KeyExchangeError>> {
    let mut bytes = Vec::new();
    for record in records {
        record.write(&mut bytes).unwrap();
    }
    match KeyExchangeResultDecoder::new().step_with_slice(&bytes) {
        ControlFlow::Continue(_) => None,
        ControlFlow::Break(result) => Some(result),
    }
}

fn all_variants() -> Vec<NtsRecord> {
    vec![
        NtsRecord::EndOfMessage,
        NtsRecord::NextProtocol { protocol_ids: vec![0, 1, 0xffff] },
        NtsRecord::Error { errorcode: 0x1234 },
        NtsRecord::Warning { warningcode: 7 },
        NtsRecord::AeadAlgorithm { critical: true, algorithm_ids: vec![15, 16] },
        NtsRecord::AeadAlgorithm { critical: false, algorithm_ids: vec![] },
        NtsRecord::NewCookie { cookie_data: vec![1, 2, 3, 4, 5] },
        NtsRecord::Server { critical: false, name: String::from("ntp.example.org") },
        NtsRecord::Server { critical: true, name: String::from("tïme.example") },
        NtsRecord::Port { critical: true, port: 4460 },
        NtsRecord::Unknown { record_type: 42, critical: true, data: vec![9, 8, 7] },
        NtsRecord::Unknown { record_type: 2, critical: true, data: vec![1, 2, 3] },
    ]
}

#[test]
fn every_variant_reads_back() {
    for record in all_variants() {
        assert_eq!(decode_one(&encode(&record)), record);
    }
}

#[test]
fn exact_encodings() {
    assert_eq!(encode(&NtsRecord::Port { critical: false, port: 0x1234 }), vec![0, 7, 0, 2, 0x12, 0x34]);
    assert_eq!(
        encode(&NtsRecord::Server { critical: true, name: String::from("ab") }),
        vec![0x80, 6, 0, 2, b'a', b'b']
    );
    assert_eq!(
        encode(&NtsRecord::Unknown { record_type: 0x7fff, critical: false, data: vec![5] }),
        vec![0x7f, 0xff, 0, 1, 5]
    );
    assert_eq!(
        NtsRecord::client_key_exchange_bytes(),
        vec![128, 1, 0, 2, 0, 0, 0, 4, 0, 2, 0, 15, 128, 0, 0, 0]
    );
}

#[test]
fn server_name_bytes_are_utf8() {
    let bytes = encode(&NtsRecord::Server { critical: false, name: String::from("é") });
    assert_eq!(bytes, vec![0, 6, 0, 2, 0xc3, 0xa9]);
    match decode_one(&bytes) {
        NtsRecord::Server { name, .. } => assert_eq!(name, "é"),
        other => panic!("unexpected {:?}", other),
    }
}

#[test]
fn write_errors() {
    let mut buffer = vec![1, 2];
    let invalid = NtsRecord::Unknown { record_type: 0x8001, critical: false, data: vec![] };
    assert_eq!(invalid.write(&mut buffer), Err(WriteError::Invalid));
    let cookie = NtsRecord::NewCookie { cookie_data: vec![0; 0x10000] };
    assert_eq!(cookie.write(&mut buffer), Err(WriteError::TooLong));
    let ids = NtsRecord::NextProtocol { protocol_ids: vec![0; 0x8000] };
    assert_eq!(ids.write(&mut buffer), Err(WriteError::TooLong));
    let ids = NtsRecord::AeadAlgorithm { critical: false, algorithm_ids: vec![0; 0x8000] };
    assert_eq!(ids.write(&mut buffer), Err(WriteError::TooLong));
    let name = NtsRecord::Server { critical: false, name: "a".repeat(0x10000) };
    assert_eq!(name.write(&mut buffer), Err(WriteError::TooLong));
    assert_eq!(buffer, vec![1, 2]);
    let largest = NtsRecord::NewCookie { cookie_data: vec![3; 0xffff] };
    assert_eq!(largest.write(&mut buffer), Ok(()));
    assert_eq!(buffer.len(), 2 + 4 + 0xffff);
}

#[test]
fn largest_bodies_are_writable() {
    let ids = NtsRecord::NextProtocol { protocol_ids: vec![7; 0x7fff] };
    let bytes = encode(&ids);
    assert_eq!(bytes.len(), 4 + 0xfffe);
    assert_eq!(&bytes[..4], &[0x80, 1, 0xff, 0xfe]);
    assert_eq!(decode_one(&bytes), ids);
    let algorithms = NtsRecord::AeadAlgorithm { critical: true, algorithm_ids: vec![15; 0x7fff] };
    assert_eq!(decode_one(&encode(&algorithms)), algorithms);
    let name = NtsRecord::Server { critical: false, name: "a".repeat(0xffff) };
    let bytes = encode(&name);
    assert_eq!(&bytes[..4], &[0, 6, 0xff, 0xff]);
    assert_eq!(decode_one(&bytes), name);
}

#[test]
fn malformed_known_records_stay_unknown() {
    assert_eq!(
        decode_one(&[0, 6, 0, 2, 0xff, 0xfe]),
        NtsRecord::Unknown { record_type: 6, critical: false, data: vec![0xff, 0xfe] }
    );
    assert_eq!(
        decode_one(&[0x80, 2, 0, 3, 1, 2, 3]),
        NtsRecord::Unknown { record_type: 2, critical: true, data: vec![1, 2, 3] }
    );
    assert_eq!(
        decode_one(&[0x80, 5, 0, 1, 9]),
        NtsRecord::Unknown { record_type: 5, critical: true, data: vec![9] }
    );
    assert_eq!(
        decode_one(&[0, 0, 0, 0]),
        NtsRecord::Unknown { record_type: 0, critical: false, data: vec![] }
    );
    assert_eq!(
        decode_one(&[0, 4, 0, 1, 15]),
        NtsRecord::Unknown { record_type: 4, critical: false, data: vec![15] }
    );
}

#[test]
fn read_needs_whole_record() {
    assert!(NtsRecord::read(&[0x80, 7]).is_none());
    assert!(NtsRecord::read(&[0x80, 7, 0, 2, 1]).is_none());
    let (record, n) = NtsRecord::read(&[0x80, 7, 0, 2, 1, 2, 99]).unwrap();
    assert_eq!(record, NtsRecord::Port { critical: true, port: 0x0102 });
    assert_eq!(n, 6);
}

#[test]
fn decoder_split_anywhere() {
    let mut stream = Vec::new();
    for record in all_variants() {
        stream.extend(encode(&record));
    }
    stream.extend([0x80, 1, 0]);
    for chunk in 1..12 {
        let mut decoder = NtsRecord::decoder();
        let mut got = Vec::new();
        for piece in stream.chunks(chunk) {
            decoder.extend(piece);
            while let Some(record) = decoder.step() {
                got.push(record);
            }
        }
        assert_eq!(got, all_variants());
        assert!(decoder.step().is_none());
        decoder.extend(&[2, 0, 0]);
        assert_eq!(decoder.step(), Some(NtsRecord::NextProtocol { protocol_ids: vec![0] }));
        assert!(decoder.step().is_none());
    }
}

#[test]
fn server_error_codes() {
    let error = |code: u16| negotiate(&[NtsRecord::Error { errorcode: code }]).unwrap().err();
    assert!(matches!(error(0), Some(KeyExchangeError::UnrecognizedCriticalRecord)));
    assert!(matches!(error(1), Some(KeyExchangeError::BadRequest)));
    assert!(matches!(error(2), Some(KeyExchangeError::InternalServerError)));
    assert!(matches!(error(7), Some(KeyExchangeError::UnknownErrorCode(7))));
}

#[test]
fn protocol_and_cookie_rules() {
    let result = negotiate(&[NtsRecord::NextProtocol { protocol_ids: vec![1, 2] }]);
    assert!(matches!(result.unwrap().err(), Some(KeyExchangeError::NoValidProtocol)));
    let result = negotiate(&[
        NtsRecord::NextProtocol { protocol_ids: vec![0] },
        NtsRecord::AeadAlgorithm { critical: false, algorithm_ids: vec![15] },
        NtsRecord::Warning { warningcode: 3 },
        NtsRecord::Unknown { record_type: 99, critical: true, data: vec![] },
        NtsRecord::Server { critical: false, name: String::from("x") },
        NtsRecord::EndOfMessage,
    ]);
    assert!(matches!(result.unwrap().err(), Some(KeyExchangeError::NoCookies)));
    let result = negotiate(&[
        NtsRecord::NextProtocol { protocol_ids: vec![0] },
        NtsRecord::NewCookie { cookie_data: vec![1] },
    ]);
    assert!(result.is_none());
}

#[test]
fn empty_read_is_incomplete() {
    let decoder = KeyExchangeResultDecoder::new();
    match decoder.step_with_read(&[]) {
        ControlFlow::Break(Err(e)) => assert!(matches!(e, KeyExchangeError::IncompleteResponse)),
        _ => panic!("expected an incomplete response"),
    }
    let decoder = KeyExchangeResultDecoder::new();
    assert!(matches!(decoder.step_with_read(&[0x80, 0]), ControlFlow::Continue(_)));
}

#[test]
fn cookie_stash_keeps_newest() {
    let mut stash = CookieStash::new();
    assert!(stash.is_empty());
    assert_eq!(stash.gap(), 8);
    for i in 0..10u8 {
        stash.store(vec![i]);
    }
    assert_eq!(stash.len(), 8);
    assert_eq!(stash.gap(), 0);
}

#[test]
fn result_defaults() {
    let data = negotiate(&[NtsRecord::NewCookie { cookie_data: vec![1] }, NtsRecord::EndOfMessage])
        .unwrap()
        .unwrap();
    let result = KeyExchangeResult::from_negotiation(data, String::from("a.example"), vec![1; 32], vec![2; 32]);
    assert_eq!(result.remote, "a.example");
    assert_eq!(result.port, 123);
    assert_eq!(result.nts.cookies.len(), 1);
    let data = negotiate(&[
        NtsRecord::Port { critical: false, port: 9 },
        NtsRecord::Server { critical: false, name: String::from("b.example") },
        NtsRecord::NewCookie { cookie_data: vec![1] },
        NtsRecord::EndOfMessage,
    ])
    .unwrap()
    .unwrap();
    let result = KeyExchangeResult::from_negotiation(data, String::from("a.example"), vec![], vec![]);
    assert_eq!(result.remote, "b.example");
    assert_eq!(result.port, 9);
}

#[test]
fn export_contexts() {
    assert_eq!(key_export_context(false), vec![0, 0, 0, 15, 0]);
    assert_eq!(key_export_context(true), vec![0, 0, 0, 15, 1]);
}

#[test]
fn rounding() {
    assert_eq!(next_multiple_of(10, 4), 12);
    assert_eq!(next_multiple_of(8, 4), 8);
    assert_eq!(next_multiple_of(0, 3), 0);
    assert_eq!(div_ceil(10, 4), 3);
    assert_eq!(div_ceil(8, 4), 2);
    assert_eq!(div_ceil(0, 4), 0);
}
