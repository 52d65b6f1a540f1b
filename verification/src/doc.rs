//! The sidecar output document: an ordered set of keyed fields, encoded
//! from a normalized record, decodable back, and rendered as JSON text.
//! An absent optional field of the record produces no entry at all — never
//! a null or empty marker.
use crate::instant::iso_chars;
use crate::instant::parse_iso;
use crate::instant::render_iso;
use crate::instant::UtcInstant;
use crate::record::NormalizedRecord;
use crate::text::dec_chars;
use crate::text::hex_digit_char;
use crate::text::hex_str;
use crate::text::push_char;
use crate::text::push_dec;
use vstd::prelude::*;
use vstd::string::StrSliceExecFns;
use vstd::string::StringExecFns;

verus! {

/// The keys a sidecar document can carry.
#[derive(Clone, Copy, Debug, PartialEq, Eq, Structural)]
pub enum FieldKey {
    Filename,
    Size,
    CreatedTime,
    ModifiedTime,
    Orientation,
    CaptureTime,
    CameraModel,
    CameraSerial,
}

/// A field value: a non-negative integer or text.
pub enum DocValue {
    Num(u64),
    Text(String),
}

/// The mathematical model of a field value.
pub enum DocValueV {
    Num(u64),
    Text(Seq<char>),
}

impl View for DocValue {
    type V = DocValueV;

    open spec fn view(&self) -> DocValueV {
        match self {
            DocValue::Num(n) => DocValueV::Num(*n),
            DocValue::Text(s) => DocValueV::Text(s@),
        }
    }
}

/// One structured output document: an ordered sequence of keyed fields.
pub struct JsonDoc {
    pub fields: Vec<(FieldKey, DocValue)>,
}

impl View for JsonDoc {
    type V = Seq<(FieldKey, DocValueV)>;

    open spec fn view(&self) -> Seq<(FieldKey, DocValueV)> {
        self.fields@.map_values(|p: (FieldKey, DocValue)| (p.0, p.1@))
    }
}

/// The document a record encodes to: the four required fields in canonical
/// order, then each present optional field, in canonical order. An absent
/// optional field contributes nothing.
#[verifier::opaque]
pub open spec fn spec_encode(r: NormalizedRecord) -> Seq<(FieldKey, DocValueV)> {
    seq![
        (FieldKey::Filename, DocValueV::Text(r.filename@)),
        (FieldKey::Size, DocValueV::Num(r.size)),
        (FieldKey::CreatedTime, DocValueV::Text(iso_chars(r.created_time))),
        (FieldKey::ModifiedTime, DocValueV::Text(iso_chars(r.modified_time))),
    ] + (match r.orientation {
        Some(o) => seq![(FieldKey::Orientation, DocValueV::Num(o as u64))],
        None => Seq::empty(),
    }) + (match r.capture_time {
        Some(t) => seq![(FieldKey::CaptureTime, DocValueV::Text(iso_chars(t)))],
        None => Seq::empty(),
    }) + (match r.camera_model {
        Some(m) => seq![(FieldKey::CameraModel, DocValueV::Text(m@))],
        None => Seq::empty(),
    }) + (match r.camera_serial {
        Some(m) => seq![(FieldKey::CameraSerial, DocValueV::Text(m@))],
        None => Seq::empty(),
    })
}

/// Encodes a record into its output document.
pub fn encode_record(r: &NormalizedRecord) -> (d: JsonDoc)
    ensures
        d@ == spec_encode(*r),
{
    let mut fields: Vec<(FieldKey, DocValue)> = Vec::new();
    fields.push((FieldKey::Filename, DocValue::Text(r.filename.clone())));
    fields.push((FieldKey::Size, DocValue::Num(r.size)));
    fields.push((FieldKey::CreatedTime, DocValue::Text(render_iso(&r.created_time))));
    fields.push((FieldKey::ModifiedTime, DocValue::Text(render_iso(&r.modified_time))));
    match &r.orientation {
        Some(o) => fields.push((FieldKey::Orientation, DocValue::Num(*o as u64))),
        None => (),
    }
    match &r.capture_time {
        Some(t) => fields.push((FieldKey::CaptureTime, DocValue::Text(render_iso(t)))),
        None => (),
    }
    match &r.camera_model {
        Some(m) => fields.push((FieldKey::CameraModel, DocValue::Text(m.clone()))),
        None => (),
    }
    match &r.camera_serial {
        Some(m) => fields.push((FieldKey::CameraSerial, DocValue::Text(m.clone()))),
        None => (),
    }
    let d = JsonDoc { fields };
    proof {
        reveal(spec_encode);
        assert(d@ =~= spec_encode(*r));
    }
    d
}

/// The text of one character under the JSON string escaping rule this
/// format uses: quote and backslash take a backslash prefix, and a control
/// character becomes its four-digit escape, so the rendered text is valid
/// JSON whatever the field holds.
pub open spec fn esc1(c: char) -> Seq<char> {
    if c == '"' {
        seq!['\\', '"']
    } else if c == '\\' {
        seq!['\\', '\\']
    } else if (c as u32) < 0x20 {
        seq![
            '\\',
            'u',
            '0',
            '0',
            hex_digit_char(((c as u32) / 16) as int),
            hex_digit_char(((c as u32) % 16) as int),
        ]
    } else {
        seq![c]
    }
}

pub open spec fn escape_chars(s: Seq<char>) -> Seq<char>
    decreases s.len(),
{
    if s.len() == 0 {
        Seq::empty()
    } else {
        esc1(s[0]) + escape_chars(s.drop_first())
    }
}

proof fn lemma_escape_snoc(s: Seq<char>, c: char)
    ensures
        escape_chars(s.push(c)) =~= escape_chars(s) + esc1(c),
    decreases s.len(),
{
    if s.len() == 0 {
        assert(s.push(c).drop_first() =~= Seq::<char>::empty());
        assert(s.push(c)[0] == c);
        assert(escape_chars(Seq::<char>::empty()) == Seq::<char>::empty());
        assert(escape_chars(s.push(c)) == esc1(c) + escape_chars(Seq::<char>::empty()));
        assert(escape_chars(s.push(c)) =~= esc1(c));
        assert(escape_chars(s) + esc1(c) =~= esc1(c));
    } else {
        assert(s.push(c).drop_first() =~= s.drop_first().push(c));
        lemma_escape_snoc(s.drop_first(), c);
        assert(s.push(c)[0] == s[0]);
        let a = esc1(s[0]);
        let b = escape_chars(s.drop_first());
        let e = esc1(c);
        assert(escape_chars(s.drop_first().push(c)) == b + e);
        assert(escape_chars(s.push(c)) == a + (b + e));
        assert(escape_chars(s) == a + b);
        assert(a + (b + e) =~= (a + b) + e);
    }
}

/// Escapes text for inclusion in a JSON string literal.
pub fn escape_json(s: &str) -> (r: String)
    ensures
        r@ == escape_chars(s@),
{
    let n = s.unicode_len();
    let mut out = String::new();
    let mut i: usize = 0;
    while i < n
        invariant
            i <= n,
            n == s@.len(),
            out@ == escape_chars(s@.subrange(0, i as int)),
        decreases n - i,
    {
        proof {
            reveal_strlit("\\\"");
            reveal_strlit("\\\\");
            reveal_strlit("\\u00");
        }
        let c = s.get_char(i);
        if c == '"' {
            out.append("\\\"");
        } else if c == '\\' {
            out.append("\\\\");
        } else {
            let v = c as u32;
            if v < 0x20 {
                out.append("\\u00");
                out.append(hex_str((v / 16) as u8));
                out.append(hex_str((v % 16) as u8));
            } else {
                push_char(&mut out, c);
            }
        }
        proof {
            assert(s@.subrange(0, i + 1) =~= s@.subrange(0, i as int).push(c));
            lemma_escape_snoc(s@.subrange(0, i as int), c);
            assert(out@ =~= escape_chars(s@.subrange(0, i as int)) + esc1(c));
            assert(out@ == escape_chars(s@.subrange(0, i + 1)));
        }
        i = i + 1;
    }
    proof {
        assert(s@.subrange(0, n as int) =~= s@);
    }
    out
}

/// The key's name in the output document.
pub open spec fn key_chars(k: FieldKey) -> Seq<char> {
    match k {
        FieldKey::Filename => "filename"@,
        FieldKey::Size => "size"@,
        FieldKey::CreatedTime => "created_time"@,
        FieldKey::ModifiedTime => "modified_time"@,
        FieldKey::Orientation => "orientation"@,
        FieldKey::CaptureTime => "capture_time"@,
        FieldKey::CameraModel => "camera_model"@,
        FieldKey::CameraSerial => "camera_serial"@,
    }
}

pub fn key_str(k: FieldKey) -> (r: &'static str)
    ensures
        r@ == key_chars(k),
{
    match k {
        FieldKey::Filename => "filename",
        FieldKey::Size => "size",
        FieldKey::CreatedTime => "created_time",
        FieldKey::ModifiedTime => "modified_time",
        FieldKey::Orientation => "orientation",
        FieldKey::CaptureTime => "capture_time",
        FieldKey::CameraModel => "camera_model",
        FieldKey::CameraSerial => "camera_serial",
    }
}

/// The JSON text of one field value.
pub open spec fn value_chars(v: DocValueV) -> Seq<char> {
    match v {
        DocValueV::Num(n) => dec_chars(n as nat),
        DocValueV::Text(s) => seq!['"'] + escape_chars(s) + seq!['"'],
    }
}

/// The JSON text of one keyed field.
pub open spec fn field_chars(p: (FieldKey, DocValueV)) -> Seq<char> {
    seq!['"'] + key_chars(p.0) + seq!['"', ':'] + value_chars(p.1)
}

/// The comma-separated JSON texts of a field sequence.
pub open spec fn fields_chars(s: Seq<(FieldKey, DocValueV)>) -> Seq<char>
    decreases s.len(),
{
    if s.len() == 0 {
        Seq::empty()
    } else if s.len() == 1 {
        field_chars(s[0])
    } else {
        field_chars(s[0]) + seq![','] + fields_chars(s.drop_first())
    }
}

/// The JSON text of a whole document.
pub open spec fn json_chars(d: Seq<(FieldKey, DocValueV)>) -> Seq<char> {
    seq!['{'] + fields_chars(d) + seq!['}']
}

proof fn lemma_fields_chars_snoc(s: Seq<(FieldKey, DocValueV)>, p: (FieldKey, DocValueV))
    requires
        s.len() > 0,
    ensures
        fields_chars(s.push(p)) =~= fields_chars(s) + seq![','] + field_chars(p),
    decreases s.len(),
{
    if s.len() == 1 {
        assert(s.push(p).drop_first() =~= seq![p]);
        assert(s.push(p)[0] == s[0]);
        assert(fields_chars(seq![p]) == field_chars(p));
    } else {
        assert(s.push(p).drop_first() =~= s.drop_first().push(p));
        lemma_fields_chars_snoc(s.drop_first(), p);
        assert(s.push(p)[0] == s[0]);
    }
}

fn render_value(v: &DocValue) -> (r: String)
    ensures
        r@ == value_chars(v@),
{
    proof {
        reveal_strlit("\"");
    }
    match v {
        DocValue::Num(n) => {
            let mut out = String::new();
            push_dec(&mut out, *n);
            assert(out@ =~= value_chars(v@));
            out
        },
        DocValue::Text(s) => {
            let mut out = String::new();
            out.append("\"");
            let esc = escape_json(s.as_str());
            out.append(esc.as_str());
            out.append("\"");
            assert(out@ =~= value_chars(v@));
            out
        },
    }
}

/// Renders the document as one JSON object, fields in document order.
pub fn render_json(d: &JsonDoc) -> (r: String)
    ensures
        r@ == json_chars(d@),
{
    proof {
        reveal_strlit("{");
        reveal_strlit("}");
        reveal_strlit("\"");
        reveal_strlit("\":");
        reveal_strlit(",");
    }
    let mut out = String::new();
    out.append("{");
    let n = d.fields.len();
    let mut i: usize = 0;
    while i < n
        invariant
            i <= n,
            n == d.fields@.len(),
            d@.len() == n,
            out@ == seq!['{'] + fields_chars(d@.subrange(0, i as int)),
        decreases n - i,
    {
        proof {
            reveal_strlit("\"");
            reveal_strlit("\":");
            reveal_strlit(",");
        }
        if i > 0 {
            out.append(",");
        }
        let (k, v) = &d.fields[i];
        out.append("\"");
        out.append(key_str(*k));
        out.append("\":");
        let val = render_value(v);
        out.append(val.as_str());
        proof {
            assert(d@[i as int] == (*k, v@));
            let fp = fields_chars(d@.subrange(0, i as int));
            let fc = field_chars(d@[i as int]);
            assert(fc == seq!['"'] + key_chars(*k) + seq!['"', ':'] + value_chars(v@));
            assert(d@.subrange(0, i + 1) =~= d@.subrange(0, i as int).push(d@[i as int]));
            if i > 0 {
                lemma_fields_chars_snoc(d@.subrange(0, i as int), d@[i as int]);
                assert(fields_chars(d@.subrange(0, i + 1)) == fp + seq![','] + fc);
                assert(out@ =~= seq!['{'] + (fp + seq![','] + fc));
            } else {
                assert(d@.subrange(0, 1) =~= seq![d@[0]]);
                assert(fields_chars(d@.subrange(0, 1)) == fc);
                assert(out@ =~= seq!['{'] + fc);
            }
            assert(out@ == seq!['{'] + fields_chars(d@.subrange(0, i + 1)));
        }
        i = i + 1;
    }
    out.append("}");
    proof {
        assert(d@.subrange(0, n as int) =~= d@);
        assert(out@ =~= json_chars(d@));
    }
    out
}

pub open spec fn opt_text_eq(a: Option<String>, b: Option<String>) -> bool {
    match (a, b) {
        (Some(x), Some(y)) => x@ == y@,
        (None, None) => true,
        _ => false,
    }
}

/// Two records agree on every field, text fields compared by content.
pub open spec fn record_like(a: NormalizedRecord, b: NormalizedRecord) -> bool {
    &&& a.filename@ == b.filename@
    &&& a.size == b.size
    &&& a.created_time == b.created_time
    &&& a.modified_time == b.modified_time
    &&& a.orientation == b.orientation
    &&& a.capture_time == b.capture_time
    &&& opt_text_eq(a.camera_model, b.camera_model)
    &&& opt_text_eq(a.camera_serial, b.camera_serial)
}

pub open spec fn opt_count<A>(o: Option<A>) -> int {
    if o is Some {
        1
    } else {
        0
    }
}

/// Where each optional segment of an encoded record starts.
pub open spec fn pos_capture(r: NormalizedRecord) -> int {
    4 + opt_count(r.orientation)
}

pub open spec fn pos_model(r: NormalizedRecord) -> int {
    pos_capture(r) + opt_count(r.capture_time)
}

pub open spec fn pos_serial(r: NormalizedRecord) -> int {
    pos_model(r) + opt_count(r.camera_model)
}

/// The shape of an encoded document: its length, the entry each field of
/// the record produces and where, and — the other face of the same fact —
/// that an absent optional field's key appears nowhere at all.
pub proof fn lemma_spec_encode_shape(r: NormalizedRecord)
    ensures
        spec_encode(r).len() == pos_serial(r) + opt_count(r.camera_serial),
        spec_encode(r)[0] == (FieldKey::Filename, DocValueV::Text(r.filename@)),
        spec_encode(r)[1] == (FieldKey::Size, DocValueV::Num(r.size)),
        spec_encode(r)[2] == (FieldKey::CreatedTime, DocValueV::Text(iso_chars(r.created_time))),
        spec_encode(r)[3] == (FieldKey::ModifiedTime, DocValueV::Text(iso_chars(r.modified_time))),
        r.orientation matches Some(o) ==> spec_encode(r)[4] == (
            FieldKey::Orientation,
            DocValueV::Num(o as u64),
        ),
        r.capture_time matches Some(t) ==> spec_encode(r)[pos_capture(r)] == (
            FieldKey::CaptureTime,
            DocValueV::Text(iso_chars(t)),
        ),
        r.camera_model matches Some(m) ==> spec_encode(r)[pos_model(r)] == (
            FieldKey::CameraModel,
            DocValueV::Text(m@),
        ),
        r.camera_serial matches Some(m) ==> spec_encode(r)[pos_serial(r)] == (
            FieldKey::CameraSerial,
            DocValueV::Text(m@),
        ),
        r.orientation is None ==> forall|i: int|
            0 <= i < spec_encode(r).len() ==> (#[trigger] spec_encode(r)[i]).0
                != FieldKey::Orientation,
        r.capture_time is None ==> forall|i: int|
            0 <= i < spec_encode(r).len() ==> (#[trigger] spec_encode(r)[i]).0
                != FieldKey::CaptureTime,
        r.camera_model is None ==> forall|i: int|
            0 <= i < spec_encode(r).len() ==> (#[trigger] spec_encode(r)[i]).0
                != FieldKey::CameraModel,
        r.camera_serial is None ==> forall|i: int|
            0 <= i < spec_encode(r).len() ==> (#[trigger] spec_encode(r)[i]).0
                != FieldKey::CameraSerial,
{
    reveal(spec_encode);
}

/// When every field of `out` has its entry at its position and the length
/// agrees, the document is exactly the encoding of `out`.
proof fn lemma_encode_from_parts(d: Seq<(FieldKey, DocValueV)>, out: NormalizedRecord)
    requires
        d.len() == pos_serial(out) + opt_count(out.camera_serial),
        d[0] == (FieldKey::Filename, DocValueV::Text(out.filename@)),
        d[1] == (FieldKey::Size, DocValueV::Num(out.size)),
        d[2] == (FieldKey::CreatedTime, DocValueV::Text(iso_chars(out.created_time))),
        d[3] == (FieldKey::ModifiedTime, DocValueV::Text(iso_chars(out.modified_time))),
        out.orientation matches Some(o) ==> d[4] == (
            FieldKey::Orientation,
            DocValueV::Num(o as u64),
        ),
        out.capture_time matches Some(t) ==> d[pos_capture(out)] == (
            FieldKey::CaptureTime,
            DocValueV::Text(iso_chars(t)),
        ),
        out.camera_model matches Some(m) ==> d[pos_model(out)] == (
            FieldKey::CameraModel,
            DocValueV::Text(m@),
        ),
        out.camera_serial matches Some(m) ==> d[pos_serial(out)] == (
            FieldKey::CameraSerial,
            DocValueV::Text(m@),
        ),
    ensures
        d == spec_encode(out),
{
    reveal(spec_encode);
    assert(d =~= spec_encode(out));
}

/// Encoding loses nothing: two well-formed records with the same encoded
/// document agree on every field. Together with `decode_record`, the
/// encoding round-trips.
pub proof fn lemma_spec_encode_injective(a: NormalizedRecord, b: NormalizedRecord)
    requires
        a.wf(),
        b.wf(),
        spec_encode(a) == spec_encode(b),
    ensures
        record_like(a, b),
{
    lemma_spec_encode_shape(a);
    lemma_spec_encode_shape(b);
    assert(a.orientation is Some <==> b.orientation is Some);
    assert(a.capture_time is Some <==> b.capture_time is Some);
    assert(a.camera_model is Some <==> b.camera_model is Some);
    assert(a.camera_serial is Some <==> b.camera_serial is Some);
    assert(iso_chars(a.created_time) == iso_chars(b.created_time));
    crate::instant::lemma_iso_chars_injective(a.created_time, b.created_time);
    assert(iso_chars(a.modified_time) == iso_chars(b.modified_time));
    crate::instant::lemma_iso_chars_injective(a.modified_time, b.modified_time);
    if a.capture_time is Some {
        assert(iso_chars(a.capture_time.unwrap()) == iso_chars(b.capture_time.unwrap()));
        crate::instant::lemma_iso_chars_injective(a.capture_time.unwrap(), b.capture_time.unwrap());
    }
}

/// Reads the optional orientation entry at `idx`, when that is what stands
/// there. `None` means the document cannot be any record's encoding.
fn take_orientation(d: &JsonDoc, idx: usize) -> (r: Option<(Option<u32>, usize)>)
    requires
        idx <= d@.len(),
    ensures
        r matches Some(p) ==> (match p.0 {
            Some(v) => idx < d@.len() && d@[idx as int] == (
                FieldKey::Orientation,
                DocValueV::Num(v as u64),
            ) && p.1 == idx + 1,
            None => p.1 == idx && (idx < d@.len() ==> d@[idx as int].0 != FieldKey::Orientation),
        }),
        r is None ==> idx < d@.len() && d@[idx as int].0 == FieldKey::Orientation && (
        d@[idx as int].1 matches DocValueV::Num(v) ==> v > u32::MAX as u64),
{
    if idx >= d.fields.len() {
        return Some((None, idx));
    }
    proof {
        assert(d@[idx as int] == (d.fields@[idx as int].0, d.fields@[idx as int].1@));
    }
    match &d.fields[idx] {
        (FieldKey::Orientation, DocValue::Num(v)) => {
            if *v > u32::MAX as u64 {
                None
            } else {
                Some((Some(*v as u32), idx + 1))
            }
        },
        (FieldKey::Orientation, _) => None,
        _ => Some((None, idx)),
    }
}

/// Reads the optional capture-time entry at `idx`, when that is what
/// stands there. `None` means the document cannot be any record's encoding.
fn take_capture(d: &JsonDoc, idx: usize) -> (r: Option<(Option<UtcInstant>, usize)>)
    requires
        idx <= d@.len(),
    ensures
        r matches Some(p) ==> (match p.0 {
            Some(t) => idx < d@.len() && t.valid() && d@[idx as int] == (
                FieldKey::CaptureTime,
                DocValueV::Text(iso_chars(t)),
            ) && p.1 == idx + 1 && (forall|t2: UtcInstant|
                t2.valid() && #[trigger] iso_chars(t2) == iso_chars(t) ==> t2 == t),
            None => p.1 == idx && (idx < d@.len() ==> d@[idx as int].0 != FieldKey::CaptureTime),
        }),
        r is None ==> idx < d@.len() && d@[idx as int].0 == FieldKey::CaptureTime && (
        d@[idx as int].1 matches DocValueV::Text(s) ==> forall|t: UtcInstant|
            t.valid() ==> #[trigger] iso_chars(t) != s),
{
    if idx >= d.fields.len() {
        return Some((None, idx));
    }
    proof {
        assert(d@[idx as int] == (d.fields@[idx as int].0, d.fields@[idx as int].1@));
    }
    match &d.fields[idx] {
        (FieldKey::CaptureTime, DocValue::Text(s)) => match parse_iso(s.as_str()) {
            Some(t) => Some((Some(t), idx + 1)),
            None => None,
        },
        (FieldKey::CaptureTime, _) => None,
        _ => Some((None, idx)),
    }
}

/// Reads an optional text entry with the given key at `idx`, when that is
/// what stands there. `None` means the document cannot be any record's
/// encoding.
fn take_text(d: &JsonDoc, idx: usize, key: FieldKey) -> (r: Option<(Option<String>, usize)>)
    requires
        idx <= d@.len(),
    ensures
        r matches Some(p) ==> (match p.0 {
            Some(s) => idx < d@.len() && d@[idx as int] == (key, DocValueV::Text(s@)) && p.1 == idx
                + 1,
            None => p.1 == idx && (idx < d@.len() ==> d@[idx as int].0 != key),
        }),
        r is None ==> idx < d@.len() && d@[idx as int].0 == key && !(d@[idx as int].1 is Text),
{
    if idx >= d.fields.len() {
        return Some((None, idx));
    }
    proof {
        assert(d@[idx as int] == (d.fields@[idx as int].0, d.fields@[idx as int].1@));
    }
    let (k, v) = &d.fields[idx];
    if *k == key {
        match v {
            DocValue::Text(s) => Some((Some(s.clone()), idx + 1)),
            _ => None,
        }
    } else {
        Some((None, idx))
    }
}

/// Decodes a document back into a record. Succeeds exactly on the encodings
/// of well-formed records, and gives back the record that was encoded: with
/// `encode_record` this is the round trip, and since an absent optional
/// field is never encoded, it always decodes back to an absent field.
#[verifier::rlimit(100)]
pub fn decode_record(d: &JsonDoc) -> (r: Option<NormalizedRecord>)
    ensures
        r matches Some(rec) ==> rec.wf() && d@ == spec_encode(rec),
        forall|rec: NormalizedRecord|
            rec.wf() && d@ == spec_encode(rec) ==> (r matches Some(out) && record_like(out, rec)),
{
    let n = d.fields.len();
    if n < 4 {
        proof {
            assert forall|rec: NormalizedRecord| rec.wf() && d@ == spec_encode(rec) implies false by {
                lemma_spec_encode_shape(rec);
            }
        }
        return None;
    }
    proof {
        assert(d@[0] == (d.fields@[0].0, d.fields@[0].1@));
        assert(d@[1] == (d.fields@[1].0, d.fields@[1].1@));
        assert(d@[2] == (d.fields@[2].0, d.fields@[2].1@));
        assert(d@[3] == (d.fields@[3].0, d.fields@[3].1@));
    }
    let filename = match &d.fields[0] {
        (FieldKey::Filename, DocValue::Text(s)) => s.clone(),
        _ => {
            proof {
                assert forall|rec: NormalizedRecord|
                    rec.wf() && d@ == spec_encode(rec) implies false by {
                    lemma_spec_encode_shape(rec);
                }
            }
            return None;
        },
    };
    let size = match &d.fields[1] {
        (FieldKey::Size, DocValue::Num(v)) => *v,
        _ => {
            proof {
                assert forall|rec: NormalizedRecord|
                    rec.wf() && d@ == spec_encode(rec) implies false by {
                    lemma_spec_encode_shape(rec);
                }
            }
            return None;
        },
    };
    let created_time = match &d.fields[2] {
        (FieldKey::CreatedTime, DocValue::Text(s)) => match parse_iso(s.as_str()) {
            Some(t) => t,
            None => {
                proof {
                    assert forall|rec: NormalizedRecord|
                        rec.wf() && d@ == spec_encode(rec) implies false by {
                        lemma_spec_encode_shape(rec);
                    }
                }
                return None;
            },
        },
        _ => {
            proof {
                assert forall|rec: NormalizedRecord|
                    rec.wf() && d@ == spec_encode(rec) implies false by {
                    lemma_spec_encode_shape(rec);
                }
            }
            return None;
        },
    };
    let modified_time = match &d.fields[3] {
        (FieldKey::ModifiedTime, DocValue::Text(s)) => match parse_iso(s.as_str()) {
            Some(t) => t,
            None => {
                proof {
                    assert forall|rec: NormalizedRecord|
                        rec.wf() && d@ == spec_encode(rec) implies false by {
                        lemma_spec_encode_shape(rec);
                    }
                }
                return None;
            },
        },
        _ => {
            proof {
                assert forall|rec: NormalizedRecord|
                    rec.wf() && d@ == spec_encode(rec) implies false by {
                    lemma_spec_encode_shape(rec);
                }
            }
            return None;
        },
    };
    let (orientation, idx1) = match take_orientation(d, 4) {
        Some(p) => p,
        None => {
            proof {
                assert forall|rec: NormalizedRecord|
                    rec.wf() && d@ == spec_encode(rec) implies false by {
                    lemma_spec_encode_shape(rec);
                }
            }
            return None;
        },
    };
    let (capture_time, idx2) = match take_capture(d, idx1) {
        Some(p) => p,
        None => {
            proof {
                assert forall|rec: NormalizedRecord|
                    rec.wf() && d@ == spec_encode(rec) implies false by {
                    lemma_spec_encode_shape(rec);
                    assert(rec.orientation == orientation);
                    assert(idx1 == pos_capture(rec));
                }
            }
            return None;
        },
    };
    let (camera_model, idx3) = match take_text(d, idx2, FieldKey::CameraModel) {
        Some(p) => p,
        None => {
            proof {
                assert forall|rec: NormalizedRecord|
                    rec.wf() && d@ == spec_encode(rec) implies false by {
                    lemma_spec_encode_shape(rec);
                    assert(rec.orientation == orientation);
                    assert(idx1 == pos_capture(rec));
                    assert(rec.capture_time == capture_time);
                    assert(idx2 == pos_model(rec));
                }
            }
            return None;
        },
    };
    let (camera_serial, idx4) = match take_text(d, idx3, FieldKey::CameraSerial) {
        Some(p) => p,
        None => {
            proof {
                assert forall|rec: NormalizedRecord|
                    rec.wf() && d@ == spec_encode(rec) implies false by {
                    lemma_spec_encode_shape(rec);
                    assert(rec.orientation == orientation);
                    assert(idx1 == pos_capture(rec));
                    assert(rec.capture_time == capture_time);
                    assert(idx2 == pos_model(rec));
                    assert(opt_text_eq(rec.camera_model, camera_model));
                    assert(idx3 == pos_serial(rec));
                }
            }
            return None;
        },
    };
    if idx4 != n {
        proof {
            assert forall|rec: NormalizedRecord| rec.wf() && d@ == spec_encode(rec) implies false by {
                lemma_spec_encode_shape(rec);
                assert(rec.orientation == orientation);
                assert(idx1 == pos_capture(rec));
                assert(rec.capture_time == capture_time);
                assert(idx2 == pos_model(rec));
                assert(opt_text_eq(rec.camera_model, camera_model));
                assert(idx3 == pos_serial(rec));
                assert(opt_text_eq(rec.camera_serial, camera_serial));
                assert(idx4 == spec_encode(rec).len());
            }
        }
        return None;
    }
    let out = NormalizedRecord {
        filename,
        size,
        created_time,
        modified_time,
        orientation,
        capture_time,
        camera_model,
        camera_serial,
    };
    proof {
        lemma_encode_from_parts(d@, out);
        assert forall|rec: NormalizedRecord|
            rec.wf() && d@ == spec_encode(rec) implies record_like(out, rec) by {
            lemma_spec_encode_shape(rec);
            assert(rec.orientation == orientation);
            assert(idx1 == pos_capture(rec));
            assert(rec.capture_time == capture_time);
            assert(idx2 == pos_model(rec));
            assert(opt_text_eq(rec.camera_model, camera_model));
            assert(idx3 == pos_serial(rec));
            assert(opt_text_eq(rec.camera_serial, camera_serial));
        }
    }
    Some(out)
}

/// Encodes the record and renders it as JSON text in one step.
pub fn record_to_json(r: &NormalizedRecord) -> (s: String)
    ensures
        s@ == json_chars(spec_encode(*r)),
{
    let d = encode_record(r);
    render_json(&d)
}

} // verus!
