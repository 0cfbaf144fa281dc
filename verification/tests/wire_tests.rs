use luftpost::measurement::DecodeError;
use luftpost::wire::{decode_json_to_measurement, decode_payload, from_document, DataValue, Measurement};

fn entry(value_type: &str, value: &str) -> DataValue {
    DataValue { value_type: value_type.to_string(), value: value.to_string() }
}

fn full_json() -> &'static str {
    r#"{"software_version": "NRZ-2017-089", "sensordatavalues":[{"value_type":"SDS_P1","value":"7.87"},{"value_type":"SDS_P2","value":"3.17"},{"value_type":"temperature","value":"18.90"},{"value_type":"humidity","value":"49.10"},{"value_type":"samples","value":"739514"},{"value_type":"min_micro","value":"192"},{"value_type":"max_micro","value":"27599"},{"value_type":"signal","value":"-73"}]}"#
}

fn full_payload() -> Measurement {
    Measurement {
        software_version: "NRZ-2017-089".to_string(),
        data_values: vec![
            entry("SDS_P1", "7.87"),
            entry("SDS_P2", "3.17"),
            entry("temperature", "18.90"),
            entry("humidity", "49.10"),
            entry("samples", "739514"),
            entry("min_micro", "192"),
            entry("max_micro", "27599"),
            entry("signal", "-73"),
        ],
    }
}

#[test]
fn measurement_decode_json_to_measurement_ok() {
    let expected = full_payload();

    let res = decode_json_to_measurement(full_json());

    assert_eq!(expected, res.unwrap());
}

#[test]
fn measurement_decode_json_to_measurement_invalid_json() {
    let json = r#"{some invalid stuff"#;

    let res = decode_json_to_measurement(json);

    match res {
        Err(DecodeError::InvalidPayload) => assert!(true),
        _ => assert!(false),
    }
}

#[test]
fn measurements_decode_json_to_measurement_ok() {
    let expected = full_payload();

    let res = decode_json_to_measurement(full_json());

    assert_eq!(expected, res.unwrap());
}

#[test]
fn measurements_decode_json_to_measurement_invalid_json() {
    let json = r#"{some invalid stuff"#;

    let res = decode_json_to_measurement(json);

    assert_eq!(res, Err(DecodeError::InvalidPayload));
}

#[test]
fn a_missing_member_is_an_invalid_payload() {
    assert_eq!(
        decode_json_to_measurement(r#"{"sensordatavalues":[]}"#),
        Err(DecodeError::InvalidPayload)
    );
    assert_eq!(
        decode_json_to_measurement(r#"{"software_version":"1"}"#),
        Err(DecodeError::InvalidPayload)
    );
    assert_eq!(
        decode_json_to_measurement(
            r#"{"software_version":"1","sensordatavalues":[{"value_type":"SDS_P1"}]}"#
        ),
        Err(DecodeError::InvalidPayload)
    );
    assert_eq!(
        decode_json_to_measurement(
            r#"{"software_version":"1","sensordatavalues":[{"value":"1.0"}]}"#
        ),
        Err(DecodeError::InvalidPayload)
    );
}

#[test]
fn a_wrong_shape_is_an_invalid_payload() {
    assert_eq!(decode_json_to_measurement(""), Err(DecodeError::InvalidPayload));
    assert_eq!(decode_json_to_measurement("[]"), Err(DecodeError::InvalidPayload));
    assert_eq!(decode_json_to_measurement("null"), Err(DecodeError::InvalidPayload));
    assert_eq!(decode_json_to_measurement(r#""text""#), Err(DecodeError::InvalidPayload));
    assert_eq!(
        decode_json_to_measurement(r#"["1", []]"#),
        Err(DecodeError::InvalidPayload)
    );
    assert_eq!(
        decode_json_to_measurement(r#"{"software_version":1,"sensordatavalues":[]}"#),
        Err(DecodeError::InvalidPayload)
    );
    assert_eq!(
        decode_json_to_measurement(r#"{"software_version":"1","sensordatavalues":{}}"#),
        Err(DecodeError::InvalidPayload)
    );
    assert_eq!(
        decode_json_to_measurement(r#"{"software_version":"1","sensordatavalues":["x"]}"#),
        Err(DecodeError::InvalidPayload)
    );
    assert_eq!(
        decode_json_to_measurement(
            r#"{"software_version":"1","sensordatavalues":[{"value_type":"SDS_P1","value":7.87}]}"#
        ),
        Err(DecodeError::InvalidPayload)
    );
    assert_eq!(
        decode_json_to_measurement(
            r#"{"software_version":"1","sensordatavalues":[{"value_type":null,"value":"7.87"}]}"#
        ),
        Err(DecodeError::InvalidPayload)
    );
}

#[test]
fn one_bad_entry_fails_the_whole_payload() {
    assert_eq!(
        decode_json_to_measurement(
            r#"{"software_version":"1","sensordatavalues":[{"value_type":"SDS_P1","value":"1"},{"value_type":"SDS_P2"}]}"#
        ),
        Err(DecodeError::InvalidPayload)
    );
}

#[test]
fn an_empty_list_is_a_payload_without_entries() {
    assert_eq!(
        decode_json_to_measurement(r#"{"software_version":"","sensordatavalues":[]}"#),
        Ok(Measurement { software_version: "".to_string(), data_values: vec![] })
    );
}

#[test]
fn other_members_are_passed_over() {
    let json = r#"{"age":"12","software_version":"NRZ-2018-123B","sensordatavalues":[{"id":7,"value_type":"BME280_pressure","value":"96532.06","extra":[1,2]}],"more":{"a":null}}"#;
    assert_eq!(
        decode_json_to_measurement(json),
        Ok(Measurement {
            software_version: "NRZ-2018-123B".to_string(),
            data_values: vec![entry("BME280_pressure", "96532.06")],
        })
    );
}

#[test]
fn texts_come_out_unescaped_and_as_written() {
    let json = r#"{"software_version":"a\"bé\n","sensordatavalues":[{"value_type":" SDS_P1 ","value":"  7.87"}]}"#;
    assert_eq!(
        decode_json_to_measurement(json),
        Ok(Measurement {
            software_version: "a\"b\u{e9}\n".to_string(),
            data_values: vec![entry(" SDS_P1 ", "  7.87")],
        })
    );
}

#[test]
fn entries_keep_the_order_of_the_list() {
    let json = r#"{"software_version":"1","sensordatavalues":[{"value_type":"c","value":"3"},{"value_type":"a","value":"1"},{"value_type":"b","value":"2"},{"value_type":"a","value":"0"}]}"#;
    assert_eq!(
        decode_json_to_measurement(json).unwrap().data_values,
        vec![entry("c", "3"), entry("a", "1"), entry("b", "2"), entry("a", "0")]
    );
}

#[test]
fn decoding_twice_gives_the_same_payload() {
    let first = decode_json_to_measurement(full_json());
    let second = decode_json_to_measurement(full_json());
    assert!(first.is_ok());
    assert_eq!(first, second);
}

#[test]
fn from_document_reads_a_parsed_document() {
    let document: serde_json::Value = serde_json::from_str(full_json()).unwrap();
    assert_eq!(from_document(&document), Ok(full_payload()));

    let document = serde_json::Value::Array(vec![]);
    assert_eq!(from_document(&document), Err(DecodeError::InvalidPayload));

    let mut members = serde_json::Map::new();
    members.insert("software_version".to_string(), serde_json::Value::String("7".to_string()));
    members.insert("sensordatavalues".to_string(), serde_json::Value::Array(vec![]));
    let document = serde_json::Value::Object(members);
    assert_eq!(
        from_document(&document),
        Ok(Measurement { software_version: "7".to_string(), data_values: vec![] })
    );
}

#[test]
fn decode_payload_takes_bytes() {
    assert_eq!(decode_payload(full_json().as_bytes()), Ok(full_payload()));
    assert_eq!(decode_payload(b"{some invalid stuff"), Err(DecodeError::InvalidPayload));
    assert_eq!(decode_payload(b""), Err(DecodeError::InvalidPayload));
}

#[test]
fn decode_payload_rejects_bytes_that_are_no_text() {
    let mut body = Vec::new();
    body.extend_from_slice(br#"{"software_version":""#);
    body.push(0xff);
    body.extend_from_slice(br#"","sensordatavalues":[]}"#);
    assert_eq!(decode_payload(&body), Err(DecodeError::InvalidPayload));

    let body = "{\"software_version\":\"\u{e9}\",\"sensordatavalues\":[]}".as_bytes();
    assert_eq!(
        decode_payload(body),
        Ok(Measurement { software_version: "\u{e9}".to_string(), data_values: vec![] })
    );
}

#[test]
fn of_a_repeated_member_the_last_counts_in_a_payload() {
    let json = r#"{"software_version":"1","sensordatavalues":[{"value_type":"a","value":"1","value":"2"}],"software_version":"2"}"#;
    assert_eq!(
        decode_json_to_measurement(json),
        Ok(Measurement { software_version: "2".to_string(), data_values: vec![entry("a", "2")] })
    );
}
