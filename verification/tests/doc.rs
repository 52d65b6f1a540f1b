use jpeg_sidecar::doc::decode_record;
use jpeg_sidecar::doc::encode_record;
use jpeg_sidecar::doc::record_to_json;
use jpeg_sidecar::doc::render_json;
use jpeg_sidecar::instant::UtcInstant;
use jpeg_sidecar::record::NormalizedRecord;

fn instant(year: u16, month: u8, day: u8, hour: u8, minute: u8, second: u8) -> UtcInstant {
    UtcInstant::new(year, month, day, hour, minute, second, 0).unwrap()
}

fn full_record() -> NormalizedRecord {
    NormalizedRecord {
        filename: "JAM26284.jpg".to_string(),
        size: 3014190,
        created_time: instant(2020, 8, 13, 10, 57, 7),
        modified_time: instant(2020, 8, 13, 10, 57, 7),
        orientation: Some(1),
        capture_time: Some(instant(2020, 8, 13, 10, 57, 7)),
        camera_model: Some("\"Canon EOS 5D Mark IV\"".to_string()),
        camera_serial: Some("\"025021000535\"".to_string()),
    }
}

fn bare_record() -> NormalizedRecord {
    NormalizedRecord {
        filename: "a.jpg".to_string(),
        size: 1,
        created_time: instant(2020, 8, 13, 10, 57, 7),
        modified_time: instant(2021, 1, 2, 3, 4, 5),
        orientation: None,
        capture_time: None,
        camera_model: None,
        camera_serial: None,
    }
}

#[test]
fn roundtrip_full_record() {
    let rec = full_record();
    let doc = encode_record(&rec);
    let back = decode_record(&doc).unwrap();
    assert_eq!(back.filename, rec.filename);
    assert_eq!(back.size, rec.size);
    assert_eq!(back.created_time, rec.created_time);
    assert_eq!(back.modified_time, rec.modified_time);
    assert_eq!(back.orientation, rec.orientation);
    assert_eq!(back.capture_time, rec.capture_time);
    assert_eq!(back.camera_model, rec.camera_model);
    assert_eq!(back.camera_serial, rec.camera_serial);
}

#[test]
fn roundtrip_bare_record() {
    let rec = bare_record();
    let doc = encode_record(&rec);
    assert_eq!(doc.fields.len(), 4);
    let back = decode_record(&doc).unwrap();
    assert_eq!(back.filename, rec.filename);
    assert_eq!(back.size, rec.size);
    assert_eq!(back.created_time, rec.created_time);
    assert_eq!(back.modified_time, rec.modified_time);
    assert!(back.orientation.is_none());
    assert!(back.capture_time.is_none());
    assert!(back.camera_model.is_none());
    assert!(back.camera_serial.is_none());
}

#[test]
fn roundtrip_partial_record() {
    let mut rec = bare_record();
    rec.camera_serial = Some("xyz".to_string());
    let doc = encode_record(&rec);
    assert_eq!(doc.fields.len(), 5);
    let back = decode_record(&doc).unwrap();
    assert!(back.orientation.is_none());
    assert!(back.camera_model.is_none());
    assert_eq!(back.camera_serial, rec.camera_serial);
}

#[test]
fn json_text_exact() {
    let rec = bare_record();
    let s = record_to_json(&rec);
    assert_eq!(
        s,
        "{\"filename\":\"a.jpg\",\"size\":1,\"created_time\":\"2020-08-13T10:57:07Z\",\"modified_time\":\"2021-01-02T03:04:05Z\"}"
    );
}

#[test]
fn json_text_escapes_quotes() {
    let rec = full_record();
    let s = record_to_json(&rec);
    assert!(s.contains("\"camera_model\":\"\\\"Canon EOS 5D Mark IV\\\"\""));
}

#[test]
fn json_text_parses_back_with_serde() {
    let rec = full_record();
    let s = record_to_json(&rec);
    let v: serde_json::Value = serde_json::from_str(&s).unwrap();
    assert_eq!(v.get("filename").unwrap().as_str().unwrap(), "JAM26284.jpg");
    assert_eq!(v.get("size").unwrap().as_u64().unwrap(), 3014190);
    assert_eq!(
        v.get("created_time").unwrap().as_str().unwrap(),
        "2020-08-13T10:57:07Z"
    );
    assert_eq!(v.get("orientation").unwrap().as_u64().unwrap(), 1);
    assert_eq!(
        v.get("capture_time").unwrap().as_str().unwrap(),
        "2020-08-13T10:57:07Z"
    );
    assert_eq!(
        v.get("camera_model").unwrap().as_str().unwrap(),
        "\"Canon EOS 5D Mark IV\""
    );
    assert_eq!(
        v.get("camera_serial").unwrap().as_str().unwrap(),
        "\"025021000535\""
    );
}

#[test]
fn absent_fields_have_no_keys_at_all() {
    let rec = bare_record();
    let s = record_to_json(&rec);
    let v: serde_json::Value = serde_json::from_str(&s).unwrap();
    assert!(v.get("orientation").is_none());
    assert!(v.get("capture_time").is_none());
    assert!(v.get("camera_model").is_none());
    assert!(v.get("camera_serial").is_none());
    assert!(!s.contains("null"));
}

#[test]
fn json_text_escapes_control_characters() {
    let mut rec = bare_record();
    rec.camera_model = Some("line\none\ttab".to_string());
    let s = record_to_json(&rec);
    assert!(s.contains("\\u000a"));
    assert!(s.contains("\\u0009"));
    let v: serde_json::Value = serde_json::from_str(&s).unwrap();
    assert_eq!(
        v.get("camera_model").unwrap().as_str().unwrap(),
        "line\none\ttab"
    );
}

#[test]
fn decode_refuses_truncated_document() {
    let rec = full_record();
    let mut doc = encode_record(&rec);
    doc.fields.pop();
    doc.fields.pop();
    doc.fields.pop();
    doc.fields.pop();
    doc.fields.pop();
    assert!(decode_record(&doc).is_none());
}

#[test]
fn render_json_of_encoded_full_record() {
    let rec = full_record();
    let doc = encode_record(&rec);
    let s = render_json(&doc);
    assert!(s.starts_with("{\"filename\":"));
    assert!(s.ends_with("}"));
}
