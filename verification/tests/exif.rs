use jpeg_sidecar::embedded::decode_embedded;
use jpeg_sidecar::embedded::extract_exif_metadata;
use jpeg_sidecar::instant::UtcInstant;
use jpeg_sidecar::PipelineError;

/// A minimal JPEG holding an APP1 segment with a little-endian TIFF
/// structure: Model and Orientation in the primary directory, plus an
/// embedded-metadata sub-directory with the capture date and the body
/// serial number.
fn exif_jpeg() -> Vec<u8> {
    let mut tiff: Vec<u8> = Vec::new();
    tiff.extend_from_slice(b"II");
    tiff.extend_from_slice(&42u16.to_le_bytes());
    tiff.extend_from_slice(&8u32.to_le_bytes());
    // primary directory: three entries
    tiff.extend_from_slice(&3u16.to_le_bytes());
    // Model: ASCII, 21 bytes at offset 80
    tiff.extend_from_slice(&0x0110u16.to_le_bytes());
    tiff.extend_from_slice(&2u16.to_le_bytes());
    tiff.extend_from_slice(&21u32.to_le_bytes());
    tiff.extend_from_slice(&80u32.to_le_bytes());
    // Orientation: SHORT, one component, value 1
    tiff.extend_from_slice(&0x0112u16.to_le_bytes());
    tiff.extend_from_slice(&3u16.to_le_bytes());
    tiff.extend_from_slice(&1u32.to_le_bytes());
    tiff.extend_from_slice(&1u32.to_le_bytes());
    // pointer to the sub-directory at offset 50
    tiff.extend_from_slice(&0x8769u16.to_le_bytes());
    tiff.extend_from_slice(&4u16.to_le_bytes());
    tiff.extend_from_slice(&1u32.to_le_bytes());
    tiff.extend_from_slice(&50u32.to_le_bytes());
    tiff.extend_from_slice(&0u32.to_le_bytes());
    // sub-directory: two entries
    tiff.extend_from_slice(&2u16.to_le_bytes());
    // DateTimeOriginal: ASCII, 20 bytes at offset 101
    tiff.extend_from_slice(&0x9003u16.to_le_bytes());
    tiff.extend_from_slice(&2u16.to_le_bytes());
    tiff.extend_from_slice(&20u32.to_le_bytes());
    tiff.extend_from_slice(&101u32.to_le_bytes());
    // BodySerialNumber: ASCII, 13 bytes at offset 121
    tiff.extend_from_slice(&0xa431u16.to_le_bytes());
    tiff.extend_from_slice(&2u16.to_le_bytes());
    tiff.extend_from_slice(&13u32.to_le_bytes());
    tiff.extend_from_slice(&121u32.to_le_bytes());
    tiff.extend_from_slice(&0u32.to_le_bytes());
    assert_eq!(tiff.len(), 80);
    tiff.extend_from_slice(b"Canon EOS 5D Mark IV\0");
    tiff.extend_from_slice(b"2020:08:13 10:57:07\0");
    tiff.extend_from_slice(b"025021000535\0");
    assert_eq!(tiff.len(), 134);

    let mut jpeg: Vec<u8> = vec![0xFF, 0xD8, 0xFF, 0xE1];
    let app1_len = (2 + 6 + tiff.len()) as u16;
    jpeg.extend_from_slice(&app1_len.to_be_bytes());
    jpeg.extend_from_slice(b"Exif\0\0");
    jpeg.extend_from_slice(&tiff);
    jpeg.extend_from_slice(&[0xFF, 0xD9]);
    jpeg
}

#[test]
fn orientation_tag_value_one_decodes() {
    let meta = extract_exif_metadata(&exif_jpeg()).unwrap();
    assert_eq!(meta.orientation, Some(1));
}

#[test]
fn quoted_text_tags_kept_verbatim() {
    let meta = extract_exif_metadata(&exif_jpeg()).unwrap();
    assert_eq!(meta.camera_model, Some("\"Canon EOS 5D Mark IV\"".to_string()));
    assert_eq!(meta.camera_serial, Some("\"025021000535\"".to_string()));
}

#[test]
fn missing_segment_is_container_parse_error() {
    let bare = vec![0xFFu8, 0xD8, 0xFF, 0xD9];
    assert_eq!(
        extract_exif_metadata(&bare).unwrap_err(),
        PipelineError::ContainerParseError
    );
    let garbage = vec![0x00u8; 16];
    assert_eq!(
        extract_exif_metadata(&garbage).unwrap_err(),
        PipelineError::ContainerParseError
    );
}

#[test]
fn missing_tags_decode_to_none() {
    let meta = decode_embedded(None, None, None, None);
    assert!(meta.orientation.is_none());
    assert!(meta.capture_time.is_none());
    assert!(meta.camera_model.is_none());
    assert!(meta.camera_serial.is_none());
}

#[test]
fn capture_text_decodes_through_fixed_pattern() {
    let meta = decode_embedded(Some(1), Some("2020:08:13 10:57:07".to_string()), None, None);
    let expected = UtcInstant::new(2020, 8, 13, 10, 57, 7, 0).unwrap();
    assert_eq!(meta.capture_time, Some(expected));
    assert_eq!(meta.orientation, Some(1));
}

#[test]
fn malformed_capture_text_decodes_to_none_not_error() {
    let meta = decode_embedded(None, Some("2020-08-13 10:57:07".to_string()), None, None);
    assert!(meta.capture_time.is_none());
    let meta2 = decode_embedded(None, Some("unknown".to_string()), None, None);
    assert!(meta2.capture_time.is_none());
}
