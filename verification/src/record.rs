//! Filesystem attributes, the normalized sidecar record, and its assembly
//! from the per-file extraction results.
use crate::embedded::EmbeddedMetadata;
use crate::instant::UtcInstant;
use crate::PipelineError;
use vstd::prelude::*;
use vstd::string::StrSliceExecFns;

verus! {

/// An immutable snapshot of the file store's attributes for one file.
#[derive(Debug)]
pub struct FsAttributes {
    pub size: u64,
    pub created_time: UtcInstant,
    pub modified_time: UtcInstant,
}

impl FsAttributes {
    pub open spec fn wf(self) -> bool {
        self.created_time.valid() && self.modified_time.valid()
    }
}

/// The schema-stable output record for one accepted file. The four embedded
/// fields are independently optional; an absent one is omitted from the
/// output representation entirely.
#[derive(Debug)]
pub struct NormalizedRecord {
    pub filename: String,
    pub size: u64,
    pub created_time: UtcInstant,
    pub modified_time: UtcInstant,
    pub orientation: Option<u32>,
    pub capture_time: Option<UtcInstant>,
    pub camera_model: Option<String>,
    pub camera_serial: Option<String>,
}

impl NormalizedRecord {
    pub open spec fn wf(self) -> bool {
        &&& self.created_time.valid()
        &&& self.modified_time.valid()
        &&& (self.capture_time matches Some(t) ==> t.valid())
    }
}

/// The base-name component of a path: what follows the last `/` separator.
/// Empty when the path is empty or ends in a separator.
pub open spec fn spec_base_name(s: Seq<char>) -> Seq<char>
    decreases s.len(),
{
    if s.len() == 0 {
        Seq::empty()
    } else if s.last() == '/' {
        Seq::empty()
    } else {
        spec_base_name(s.drop_last()).push(s.last())
    }
}

proof fn lemma_base_name_at(s: Seq<char>, i: int)
    requires
        0 <= i <= s.len(),
        forall|j: int| i <= j < s.len() ==> s[j] != '/',
        i > 0 ==> s[i - 1] == '/',
    ensures
        spec_base_name(s) =~= s.subrange(i, s.len() as int),
    decreases s.len(),
{
    if s.len() == 0 {
    } else if i == s.len() {
        assert(s.last() == '/');
    } else {
        assert(s.last() != '/');
        lemma_base_name_at(s.drop_last(), i);
        assert(s.drop_last().subrange(i, s.len() - 1) =~= s.subrange(i, s.len() - 1));
        assert(spec_base_name(s) =~= s.subrange(i, s.len() as int));
    }
}

/// Extracts the base name of a path identifier, or `None` when the path has
/// no base-name component (it is empty or ends in a separator).
pub fn base_name(path: &str) -> (r: Option<String>)
    ensures
        spec_base_name(path@).len() == 0 <==> r is None,
        r matches Some(b) ==> b@ == spec_base_name(path@) && b@.len() > 0,
{
    let n = path.unicode_len();
    let mut i: usize = n;
    let mut found_sep = false;
    while i > 0 && !found_sep
        invariant
            i <= n,
            n == path@.len(),
            forall|j: int| i <= j < n ==> path@[j] != '/',
            found_sep ==> i > 0 && path@[i - 1] == '/',
        decreases i + (if found_sep {
            0int
        } else {
            1int
        }),
    {
        if path.get_char(i - 1) == '/' {
            found_sep = true;
        } else {
            i = i - 1;
        }
    }
    proof {
        lemma_base_name_at(path@, i as int);
    }
    if i == n {
        None
    } else {
        let b = path.substring_char(i, n);
        Some(b.to_owned())
    }
}

/// Combines the filesystem attributes and the decoded embedded fields into
/// one normalized record for the given path. Fails only when the path has
/// no extractable base name.
pub fn assemble_record(path: &str, fs: &FsAttributes, embedded: EmbeddedMetadata) -> (r: Result<
    NormalizedRecord,
    PipelineError,
>)
    requires
        fs.wf(),
        embedded.wf(),
    ensures
        spec_base_name(path@).len() == 0 <==> r == Err::<NormalizedRecord, PipelineError>(
            PipelineError::InvalidFilename,
        ),
        r matches Ok(rec) ==> {
            &&& rec.wf()
            &&& rec.filename@ == spec_base_name(path@)
            &&& rec.size == fs.size
            &&& rec.created_time == fs.created_time
            &&& rec.modified_time == fs.modified_time
            &&& rec.orientation == embedded.orientation
            &&& rec.capture_time == embedded.capture_time
            &&& rec.camera_model == embedded.camera_model
            &&& rec.camera_serial == embedded.camera_serial
        },
        r is Err ==> r == Err::<NormalizedRecord, PipelineError>(PipelineError::InvalidFilename),
{
    match base_name(path) {
        None => Err(PipelineError::InvalidFilename),
        Some(name) => Ok(
            NormalizedRecord {
                filename: name,
                size: fs.size,
                created_time: fs.created_time,
                modified_time: fs.modified_time,
                orientation: embedded.orientation,
                capture_time: embedded.capture_time,
                camera_model: embedded.camera_model,
                camera_serial: embedded.camera_serial,
            },
        ),
    }
}

} // verus!
