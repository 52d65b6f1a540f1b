use jpeg_sidecar::is_jpeg;
use jpeg_sidecar::PipelineError;

#[test]
fn jpeg_signature_accepted() {
    let bytes = vec![0xFFu8, 0xD8, 0xFF, 0xE0, 0x12];
    assert_eq!(is_jpeg(&bytes).unwrap(), true);
    let exact = vec![0xFFu8, 0xD8];
    assert_eq!(is_jpeg(&exact).unwrap(), true);
}

#[test]
fn non_jpeg_signature_rejected() {
    let png = vec![0x89u8, 0x50, 0x4E, 0x47, 0x0D, 0x0A, 0x1A, 0x0A];
    assert_eq!(is_jpeg(&png).unwrap(), false);
    let close = vec![0xFFu8, 0xD9, 0x00];
    assert_eq!(is_jpeg(&close).unwrap(), false);
    let swapped = vec![0xD8u8, 0xFF, 0x00];
    assert_eq!(is_jpeg(&swapped).unwrap(), false);
}

#[test]
fn short_stream_is_io_error() {
    let empty: Vec<u8> = Vec::new();
    assert_eq!(is_jpeg(&empty).unwrap_err(), PipelineError::IoError);
    let one = vec![0xFFu8];
    assert_eq!(is_jpeg(&one).unwrap_err(), PipelineError::IoError);
}
