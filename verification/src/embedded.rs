//! Decoding of the four embedded-metadata fields. The tag directory itself
//! is read through the `exif` crate behind a trusted wrapper whose result
//! is named `spec_exif_fields`; everything the wrapper hands back is
//! normalized by verified code.
use crate::instant::exif_dt_chars;
use crate::instant::parse_exif_datetime;
use crate::instant::UtcInstant;
use crate::PipelineError;
use vstd::prelude::*;

verus! {

#[verifier::external_type_specification]
#[verifier::external_body]
pub struct ExExifError(exif::Error);

/// The four raw tag values that the embedded segment of a byte stream
/// yields — the orientation code, and the displayed texts of the capture
/// date, camera model and body serial number, each `None` when its tag is
/// missing (or, for orientation, not numeric) — or `None` when the segment
/// is absent or its directory cannot be parsed at all. The `exif` crate
/// computes this from the bytes alone.
pub uninterp spec fn spec_exif_fields(bytes: Seq<u8>) -> Option<
    (Option<u32>, Option<Seq<char>>, Option<Seq<char>>, Option<Seq<char>>),
>;

pub open spec fn opt_text_view(o: Option<String>) -> Option<Seq<char>> {
    match o {
        Some(s) => Some(s@),
        None => None,
    }
}

/// Relies on exif::Reader::read_from_container, exif::Exif::get_field,
/// exif::Value::get_uint and exif::Field::display_value: parses the
/// embedded tag directory out of the container bytes and reads the four
/// modeled tags. All of it is deterministic in the bytes, so the outcome
/// carries the name `spec_exif_fields`.
#[verifier::external_body]
fn read_exif_raw(bytes: &[u8]) -> (r: Result<
    (Option<u32>, Option<String>, Option<String>, Option<String>),
    exif::Error,
>)
    ensures
        r matches Ok(f) ==> spec_exif_fields(bytes@) == Some(
            (f.0, opt_text_view(f.1), opt_text_view(f.2), opt_text_view(f.3)),
        ),
        r is Err ==> spec_exif_fields(bytes@) is None,
{
    let mut cur = std::io::Cursor::new(bytes);
    let e = exif::Reader::new().read_from_container(&mut cur)?;
    let text = |t: exif::Tag| {
        e.get_field(t, exif::In::PRIMARY).map(|f| f.display_value().with_unit(&e).to_string())
    };
    Ok((
        e.get_field(exif::Tag::Orientation, exif::In::PRIMARY).and_then(|f| f.value.get_uint(0)),
        text(exif::Tag::DateTimeOriginal),
        text(exif::Tag::Model),
        text(exif::Tag::BodySerialNumber),
    ))
}

/// The closed set of embedded fields this pipeline models. Absence of a tag
/// is not an error; each field is independently optional.
#[derive(Debug)]
pub struct EmbeddedMetadata {
    pub orientation: Option<u32>,
    pub capture_time: Option<UtcInstant>,
    pub camera_model: Option<String>,
    pub camera_serial: Option<String>,
}

impl EmbeddedMetadata {
    pub open spec fn wf(self) -> bool {
        self.capture_time matches Some(t) ==> t.valid() && t.nanos == 0
    }
}

/// How a decoded capture time relates to the raw tag text: no text decodes
/// to nothing; text decodes to the one valid instant whose pattern
/// `YYYY:MM:DD HH:MM:SS` it is, and to nothing otherwise.
pub open spec fn capture_decodes_to(text: Option<Seq<char>>, t: Option<UtcInstant>) -> bool {
    match text {
        None => t is None,
        Some(s) => {
            &&& (t matches Some(u) ==> u.valid() && u.nanos == 0 && s == exif_dt_chars(u))
            &&& (forall|u: UtcInstant|
                u.valid() && u.nanos == 0 && s == exif_dt_chars(u) ==> t == Some(u))
        },
    }
}

/// Normalizes the four raw tag values. The orientation code is kept as
/// read; the capture text is parsed against the fixed pattern
/// `YYYY:MM:DD HH:MM:SS` as UTC, yielding `None` on any mismatch rather
/// than an error; the two text fields are kept verbatim.
pub fn decode_embedded(
    orientation: Option<u32>,
    capture_text: Option<String>,
    camera_model: Option<String>,
    camera_serial: Option<String>,
) -> (r: EmbeddedMetadata)
    ensures
        r.wf(),
        r.orientation == orientation,
        r.camera_model == camera_model,
        r.camera_serial == camera_serial,
        capture_decodes_to(opt_text_view(capture_text), r.capture_time),
{
    let capture_time = match &capture_text {
        None => None,
        Some(s) => parse_exif_datetime(s.as_str()),
    };
    proof {
        match capture_text {
            Some(s) => {
                assert(capture_time matches Some(t) ==> s@ =~= exif_dt_chars(t));
            },
            None => {},
        }
    }
    EmbeddedMetadata { orientation, capture_time, camera_model, camera_serial }
}

/// Reads the embedded tag directory from the container bytes and decodes
/// the four modeled fields. Fails — with `ContainerParseError` — exactly
/// when the directory itself is absent or corrupt; each field of a success
/// is tied to its own tag, so one missing or malformed tag never touches
/// the other three and never produces the error.
pub fn extract_exif_metadata(bytes: &[u8]) -> (r: Result<EmbeddedMetadata, PipelineError>)
    ensures
        r is Ok <==> spec_exif_fields(bytes@) is Some,
        r is Err ==> r == Err::<EmbeddedMetadata, PipelineError>(PipelineError::ContainerParseError),
        r matches Ok(m) ==> ({
            let f = spec_exif_fields(bytes@).unwrap();
            &&& m.wf()
            &&& m.orientation == f.0
            &&& capture_decodes_to(f.1, m.capture_time)
            &&& opt_text_view(m.camera_model) == f.2
            &&& opt_text_view(m.camera_serial) == f.3
        }),
{
    match read_exif_raw(bytes) {
        Err(_) => Err(PipelineError::ContainerParseError),
        Ok((orientation, capture_text, camera_model, camera_serial)) => Ok(
            decode_embedded(orientation, capture_text, camera_model, camera_serial),
        ),
    }
}

} // verus!
