//! The batch processor: each file identifier runs the signature gate and
//! then metadata extraction, yielding exactly one terminal outcome, and the
//! batch aggregates rejected and accepted identifiers in input order.
use crate::embedded::capture_decodes_to;
use crate::embedded::extract_exif_metadata;
use crate::embedded::opt_text_view;
use crate::embedded::spec_exif_fields;
use crate::is_jpeg;
use crate::record::assemble_record;
use crate::record::spec_base_name;
use crate::record::FsAttributes;
use crate::record::NormalizedRecord;
use crate::spec_is_jpeg;
use crate::PipelineError;
use vstd::prelude::*;

verus! {

/// Everything the pipeline reads about one file identifier: whether the
/// entry exists, the stream's bytes (`None` when it could not be read),
/// and the filesystem attributes (`None` when the query failed).
#[derive(Debug)]
pub struct FileInput {
    pub name: String,
    pub exists: bool,
    pub bytes: Option<Vec<u8>>,
    pub fs: Option<FsAttributes>,
}

impl FileInput {
    pub open spec fn wf(self) -> bool {
        self.fs matches Some(a) ==> a.wf()
    }
}

/// The terminal state of one file: skipped (entry does not exist),
/// rejected (signature check failed), one isolated error, or a record.
#[derive(Debug)]
pub enum FileOutcome {
    Skipped,
    Rejected,
    Failed(PipelineError),
    Accepted(NormalizedRecord),
}

pub open spec fn spec_skipped(inp: FileInput) -> bool {
    !inp.exists
}

pub open spec fn spec_io_error(inp: FileInput) -> bool {
    inp.exists && (inp.bytes is None || inp.bytes.unwrap()@.len() < 2)
}

pub open spec fn spec_rejected(inp: FileInput) -> bool {
    inp.exists && (inp.bytes matches Some(b) && b@.len() >= 2 && !spec_is_jpeg(b@))
}

pub open spec fn spec_passes(inp: FileInput) -> bool {
    inp.exists && (inp.bytes matches Some(b) && spec_is_jpeg(b@))
}

/// What a correct outcome for one input looks like: every step of the
/// state machine pinned to the input. The embedded read is a function of
/// the container bytes (the name `spec_exif_fields`), so the whole outcome
/// is: a record exactly when the signature passes, the attributes are
/// there, the segment parses and the identifier has a base name — with
/// every record field fixed — and otherwise the one error of the first
/// stage that failed.
pub open spec fn outcome_ok(inp: FileInput, r: FileOutcome) -> bool {
    &&& (spec_skipped(inp) <==> r is Skipped)
    &&& (spec_io_error(inp) ==> r == FileOutcome::Failed(PipelineError::IoError))
    &&& (spec_rejected(inp) <==> r is Rejected)
    &&& (spec_passes(inp) && inp.fs is None ==> r == FileOutcome::Failed(
        PipelineError::MetadataUnavailable,
    ))
    &&& (spec_passes(inp) && inp.fs is Some ==> match spec_exif_fields(inp.bytes.unwrap()@) {
        None => r == FileOutcome::Failed(PipelineError::ContainerParseError),
        Some(f) => {
            if spec_base_name(inp.name@).len() == 0 {
                r == FileOutcome::Failed(PipelineError::InvalidFilename)
            } else {
                match r {
                    FileOutcome::Accepted(rec) => {
                        &&& rec.wf()
                        &&& rec.filename@ == spec_base_name(inp.name@)
                        &&& rec.size == inp.fs.unwrap().size
                        &&& rec.created_time == inp.fs.unwrap().created_time
                        &&& rec.modified_time == inp.fs.unwrap().modified_time
                        &&& rec.orientation == f.0
                        &&& capture_decodes_to(f.1, rec.capture_time)
                        &&& opt_text_view(rec.camera_model) == f.2
                        &&& opt_text_view(rec.camera_serial) == f.3
                    },
                    _ => false,
                }
            }
        },
    })
}

/// Runs the full per-file state machine: existence gate, signature gate,
/// filesystem attributes, embedded metadata, record assembly. One terminal
/// outcome, in one pass, no retries.
pub fn process_file(inp: &FileInput) -> (r: FileOutcome)
    requires
        inp.wf(),
    ensures
        outcome_ok(*inp, r),
{
    if !inp.exists {
        return FileOutcome::Skipped;
    }
    let bytes = match &inp.bytes {
        None => { return FileOutcome::Failed(PipelineError::IoError) },
        Some(b) => b,
    };
    match is_jpeg(bytes.as_slice()) {
        Err(_) => { return FileOutcome::Failed(PipelineError::IoError) },
        Ok(false) => { return FileOutcome::Rejected },
        Ok(true) => (),
    }
    let fsa = match &inp.fs {
        None => { return FileOutcome::Failed(PipelineError::MetadataUnavailable) },
        Some(a) => a,
    };
    let embedded = match extract_exif_metadata(bytes.as_slice()) {
        Err(e) => { return FileOutcome::Failed(e) },
        Ok(m) => m,
    };
    match assemble_record(inp.name.as_str(), fsa, embedded) {
        Err(e) => FileOutcome::Failed(e),
        Ok(rec) => FileOutcome::Accepted(rec),
    }
}

/// A file that passed the signature check ends as exactly one record or
/// exactly one isolated error — never a rejection, never a skip — and it
/// is a record exactly when the attributes are there, the embedded segment
/// parses and the identifier has a base name.
pub proof fn lemma_validated_file_outcome(inp: FileInput, r: FileOutcome)
    requires
        outcome_ok(inp, r),
        spec_passes(inp),
    ensures
        r is Accepted || r is Failed,
        !(r is Rejected),
        !(r is Skipped),
        r is Accepted <==> inp.fs is Some && spec_exif_fields(inp.bytes.unwrap()@) is Some
            && spec_base_name(inp.name@).len() > 0,
{
}

/// The aggregate result of a batch: accepted and rejected identifiers,
/// each in input order.
#[derive(Debug)]
pub struct BatchOutcome {
    pub accepted: Vec<String>,
    pub rejected: Vec<String>,
}

/// The identifiers of the inputs that fail the signature check, in order.
pub open spec fn spec_rejected_names(inputs: Seq<FileInput>) -> Seq<Seq<char>>
    decreases inputs.len(),
{
    if inputs.len() == 0 {
        Seq::empty()
    } else {
        spec_rejected_names(inputs.drop_last()) + (if spec_rejected(inputs.last()) {
            seq![inputs.last().name@]
        } else {
            Seq::empty()
        })
    }
}

/// The identifiers of the inputs whose outcome is a record, in order.
pub open spec fn spec_accepted_names(inputs: Seq<FileInput>, outs: Seq<FileOutcome>) -> Seq<
    Seq<char>,
>
    decreases inputs.len(),
{
    if inputs.len() == 0 || outs.len() == 0 {
        Seq::empty()
    } else {
        spec_accepted_names(inputs.drop_last(), outs.drop_last()) + (if outs.last() is Accepted {
            seq![inputs.last().name@]
        } else {
            Seq::empty()
        })
    }
}

/// Processes the identifiers strictly in input order. Returns one outcome
/// per input, the rejected identifiers (exactly those failing the signature
/// check, in input order), and the accepted identifiers in input order.
pub fn process_batch(inputs: &Vec<FileInput>) -> (r: (Vec<FileOutcome>, BatchOutcome))
    requires
        forall|i: int| 0 <= i < inputs@.len() ==> (#[trigger] inputs@[i]).wf(),
    ensures
        r.0@.len() == inputs@.len(),
        forall|i: int| 0 <= i < inputs@.len() ==> outcome_ok(inputs@[i], #[trigger] r.0@[i]),
        r.1.rejected@.map_values(|s: String| s@) == spec_rejected_names(inputs@),
        r.1.accepted@.map_values(|s: String| s@) == spec_accepted_names(inputs@, r.0@),
{
    let n = inputs.len();
    let mut outs: Vec<FileOutcome> = Vec::new();
    let mut accepted: Vec<String> = Vec::new();
    let mut rejected: Vec<String> = Vec::new();
    let mut i: usize = 0;
    while i < n
        invariant
            i <= n,
            n == inputs@.len(),
            forall|k: int| 0 <= k < inputs@.len() ==> (#[trigger] inputs@[k]).wf(),
            outs@.len() == i,
            forall|k: int| 0 <= k < i ==> outcome_ok(inputs@[k], #[trigger] outs@[k]),
            rejected@.map_values(|s: String| s@) == spec_rejected_names(
                inputs@.subrange(0, i as int),
            ),
            accepted@.map_values(|s: String| s@) == spec_accepted_names(
                inputs@.subrange(0, i as int),
                outs@,
            ),
        decreases n - i,
    {
        let ghost old_outs = outs@;
        let inp = &inputs[i];
        let outcome = process_file(inp);
        match &outcome {
            FileOutcome::Rejected => rejected.push(inp.name.clone()),
            FileOutcome::Accepted(_) => accepted.push(inp.name.clone()),
            _ => (),
        }
        outs.push(outcome);
        proof {
            let pre = inputs@.subrange(0, i as int);
            let ext = inputs@.subrange(0, i + 1);
            assert(ext.drop_last() =~= pre);
            assert(ext.last() == inputs@[i as int]);
            assert(outs@.drop_last() =~= old_outs);
            assert(rejected@.map_values(|s: String| s@) =~= spec_rejected_names(ext));
            assert(accepted@.map_values(|s: String| s@) =~= spec_accepted_names(ext, outs@));
        }
        i = i + 1;
    }
    proof {
        assert(inputs@.subrange(0, n as int) =~= inputs@);
    }
    (outs, BatchOutcome { accepted, rejected })
}

/// An input whose entry does not exist leaves no trace: removing it from
/// the batch changes neither the rejected nor the accepted identifiers.
pub proof fn lemma_missing_input_invisible(inputs: Seq<FileInput>, outs: Seq<FileOutcome>, j: int)
    requires
        inputs.len() == outs.len(),
        0 <= j < inputs.len(),
        !inputs[j].exists,
        forall|i: int| 0 <= i < inputs.len() ==> outcome_ok(inputs[i], #[trigger] outs[i]),
    ensures
        spec_rejected_names(inputs.remove(j)) == spec_rejected_names(inputs),
        spec_accepted_names(inputs.remove(j), outs.remove(j)) == spec_accepted_names(inputs, outs),
    decreases inputs.len(),
{
    assert(outs[j] is Skipped);
    if j == inputs.len() - 1 {
        assert(inputs.remove(j) =~= inputs.drop_last());
        assert(outs.remove(j) =~= outs.drop_last());
        assert(!spec_rejected(inputs.last()));
        assert(!(outs.last() is Accepted));
    } else {
        assert(inputs.remove(j).drop_last() =~= inputs.drop_last().remove(j));
        assert(outs.remove(j).drop_last() =~= outs.drop_last().remove(j));
        assert(forall|i: int|
            0 <= i < inputs.drop_last().len() ==> outcome_ok(
                inputs.drop_last()[i],
                #[trigger] outs.drop_last()[i],
            ));
        lemma_missing_input_invisible(inputs.drop_last(), outs.drop_last(), j);
        assert(inputs.remove(j).last() == inputs.last());
        assert(outs.remove(j).last() == outs.last());
    }
}

} // verus!
