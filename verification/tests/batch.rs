use jpeg_sidecar::batch::process_batch;
use jpeg_sidecar::batch::process_file;
use jpeg_sidecar::batch::FileInput;
use jpeg_sidecar::batch::FileOutcome;
use jpeg_sidecar::instant::UtcInstant;
use jpeg_sidecar::record::base_name;
use jpeg_sidecar::record::FsAttributes;
use jpeg_sidecar::PipelineError;

fn fs_attrs() -> FsAttributes {
    let t = UtcInstant::new(2020, 8, 13, 10, 57, 7, 0).unwrap();
    FsAttributes { size: 3014190, created_time: t, modified_time: t }
}

fn jpeg_bytes() -> Vec<u8> {
    vec![0xFF, 0xD8, 0xFF, 0xD9]
}

fn png_bytes() -> Vec<u8> {
    vec![0x89, 0x50, 0x4E, 0x47]
}

fn input(name: &str, bytes: Vec<u8>) -> FileInput {
    FileInput { name: name.to_string(), exists: true, bytes: Some(bytes), fs: Some(fs_attrs()) }
}

#[test]
fn filesystem_values_survive_into_the_record() {
    // A minimal container whose embedded segment holds an empty tag
    // directory: every stage succeeds and the record carries the
    // filesystem attributes through unchanged.
    let mut full = Vec::new();
    full.extend_from_slice(&[0xFF, 0xD8, 0xFF, 0xE1, 0x00, 0x16]);
    full.extend_from_slice(b"Exif\0\0");
    full.extend_from_slice(b"II");
    full.extend_from_slice(&42u16.to_le_bytes());
    full.extend_from_slice(&8u32.to_le_bytes());
    full.extend_from_slice(&0u16.to_le_bytes());
    full.extend_from_slice(&0u32.to_le_bytes());
    full.extend_from_slice(&[0xFF, 0xD9]);
    let inp = input("images/JAM19896.jpg", full);
    match process_file(&inp) {
        FileOutcome::Accepted(rec) => {
            assert_eq!(rec.filename, "JAM19896.jpg");
            assert_eq!(rec.size, 3014190);
            let t = UtcInstant::new(2020, 8, 13, 10, 57, 7, 0).unwrap();
            assert_eq!(rec.created_time, t);
            assert_eq!(rec.modified_time, t);
        }
        _ => panic!("expected a record"),
    }
}

#[test]
fn missing_entry_is_skipped() {
    let inp = FileInput {
        name: "gone.jpg".to_string(),
        exists: false,
        bytes: None,
        fs: None,
    };
    assert!(matches!(process_file(&inp), FileOutcome::Skipped));
}

#[test]
fn unreadable_or_short_stream_is_io_error() {
    let unreadable = FileInput {
        name: "locked.jpg".to_string(),
        exists: true,
        bytes: None,
        fs: Some(fs_attrs()),
    };
    assert!(matches!(
        process_file(&unreadable),
        FileOutcome::Failed(PipelineError::IoError)
    ));
    let short = input("short.jpg", vec![0xFF]);
    assert!(matches!(
        process_file(&short),
        FileOutcome::Failed(PipelineError::IoError)
    ));
}

#[test]
fn non_container_is_rejected() {
    let inp = input("not-an-image.png", png_bytes());
    assert!(matches!(process_file(&inp), FileOutcome::Rejected));
}

#[test]
fn failed_attribute_query_is_metadata_unavailable() {
    let mut inp = input("a.jpg", jpeg_bytes());
    inp.fs = None;
    assert!(matches!(
        process_file(&inp),
        FileOutcome::Failed(PipelineError::MetadataUnavailable)
    ));
}

#[test]
fn corrupt_segment_is_container_parse_error() {
    let inp = input("a.jpg", jpeg_bytes());
    assert!(matches!(
        process_file(&inp),
        FileOutcome::Failed(PipelineError::ContainerParseError)
    ));
}

#[test]
fn path_without_base_name_is_invalid_filename() {
    let mut full = Vec::new();
    full.extend_from_slice(&[0xFF, 0xD8, 0xFF, 0xE1, 0x00, 0x16]);
    full.extend_from_slice(b"Exif\0\0");
    full.extend_from_slice(b"II");
    full.extend_from_slice(&42u16.to_le_bytes());
    full.extend_from_slice(&8u32.to_le_bytes());
    full.extend_from_slice(&0u16.to_le_bytes());
    full.extend_from_slice(&0u32.to_le_bytes());
    full.extend_from_slice(&[0xFF, 0xD9]);
    let inp = input("images/", full);
    assert!(matches!(
        process_file(&inp),
        FileOutcome::Failed(PipelineError::InvalidFilename)
    ));
}

#[test]
fn base_name_extraction() {
    assert_eq!(base_name("images/JAM26284.jpg").unwrap(), "JAM26284.jpg");
    assert_eq!(base_name("JAM26284.jpg").unwrap(), "JAM26284.jpg");
    assert_eq!(base_name("a/b/c.jpg").unwrap(), "c.jpg");
    assert!(base_name("images/").is_none());
    assert!(base_name("").is_none());
}

#[test]
fn rejected_list_holds_exactly_the_two_non_containers_in_order() {
    let inputs = vec![
        input("one.jpg", jpeg_bytes()),
        input("two.png", png_bytes()),
        input("three.jpg", jpeg_bytes()),
        input("four.png", png_bytes()),
        input("five.jpg", jpeg_bytes()),
    ];
    let (outcomes, summary) = process_batch(&inputs);
    assert_eq!(outcomes.len(), 5);
    assert_eq!(summary.rejected, vec!["two.png".to_string(), "four.png".to_string()]);
    // the other three are handled independently of the rejections: each
    // passed the signature check and ended as a record or one isolated error
    for i in [0usize, 2, 4] {
        assert!(matches!(
            outcomes[i],
            FileOutcome::Accepted(_) | FileOutcome::Failed(_)
        ));
    }
    assert!(matches!(outcomes[1], FileOutcome::Rejected));
    assert!(matches!(outcomes[3], FileOutcome::Rejected));
}

#[test]
fn missing_inputs_appear_in_neither_list() {
    let inputs = vec![
        FileInput { name: "ghost.jpg".to_string(), exists: false, bytes: None, fs: None },
        input("real.png", png_bytes()),
        FileInput { name: "phantom.png".to_string(), exists: false, bytes: None, fs: None },
    ];
    let (outcomes, summary) = process_batch(&inputs);
    assert_eq!(outcomes.len(), 3);
    assert!(matches!(outcomes[0], FileOutcome::Skipped));
    assert!(matches!(outcomes[2], FileOutcome::Skipped));
    assert_eq!(summary.rejected, vec!["real.png".to_string()]);
    assert!(summary.accepted.is_empty());
    assert!(!summary.rejected.contains(&"ghost.jpg".to_string()));
    assert!(!summary.rejected.contains(&"phantom.png".to_string()));
}

#[test]
fn batch_preserves_input_order_and_one_outcome_each() {
    let inputs = vec![
        input("a.png", png_bytes()),
        FileInput { name: "b.jpg".to_string(), exists: false, bytes: None, fs: None },
        input("c.png", png_bytes()),
    ];
    let (outcomes, summary) = process_batch(&inputs);
    assert_eq!(outcomes.len(), inputs.len());
    assert_eq!(summary.rejected, vec!["a.png".to_string(), "c.png".to_string()]);
}
