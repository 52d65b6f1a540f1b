//! A calendar-based model of a UTC instant, with the two textual forms the
//! pipeline handles: the embedded-metadata pattern `YYYY:MM:DD HH:MM:SS` and
//! the ISO-8601 form `YYYY-MM-DDTHH:MM:SS[.fffffffff]Z` used in the sidecar
//! document.
use crate::text::all_digits;
use crate::text::digits_val;
use crate::text::fixed_chars;
use crate::text::lemma_digits_to_fixed;
use crate::text::lemma_fixed_chars_len;
use crate::text::lemma_fixed_chars_val;
use crate::text::lemma_pow10_9;
use crate::text::pow10;
use crate::text::push_fixed;
use crate::text::read_fixed;
use vstd::prelude::*;
use vstd::string::StrSliceExecFns;
use vstd::string::StringExecFns;

verus! {

/// A UTC instant, held as its civil (proleptic Gregorian) fields.
#[derive(Clone, Copy, Debug, PartialEq, Eq, Structural)]
pub struct UtcInstant {
    pub year: u16,
    pub month: u8,
    pub day: u8,
    pub hour: u8,
    pub minute: u8,
    pub second: u8,
    pub nanos: u32,
}

pub open spec fn spec_is_leap_year(y: int) -> bool {
    y % 4 == 0 && (y % 100 != 0 || y % 400 == 0)
}

pub open spec fn spec_days_in_month(y: int, m: int) -> int {
    if m == 2 {
        if spec_is_leap_year(y) {
            29
        } else {
            28
        }
    } else if m == 4 || m == 6 || m == 9 || m == 11 {
        30
    } else {
        31
    }
}

pub fn is_leap_year(y: u16) -> (r: bool)
    ensures
        r == spec_is_leap_year(y as int),
{
    y % 4 == 0 && (y % 100 != 0 || y % 400 == 0)
}

pub fn days_in_month(y: u16, m: u8) -> (r: u8)
    ensures
        r == spec_days_in_month(y as int, m as int),
{
    if m == 2 {
        if is_leap_year(y) {
            29
        } else {
            28
        }
    } else if m == 4 || m == 6 || m == 9 || m == 11 {
        30
    } else {
        31
    }
}

impl UtcInstant {
    /// Every field lies in its calendar range and the year fits the
    /// four-digit textual forms.
    pub open spec fn valid(self) -> bool {
        self.year <= 9999 && 1 <= self.month <= 12 && 1 <= self.day <= spec_days_in_month(
            self.year as int,
            self.month as int,
        ) && self.hour < 24 && self.minute < 60 && self.second < 60 && self.nanos < 1000000000
    }

    pub fn check_valid(&self) -> (r: bool)
        ensures
            r == self.valid(),
    {
        self.year <= 9999 && 1 <= self.month && self.month <= 12 && 1 <= self.day && self.day
            <= days_in_month(self.year, self.month) && self.hour < 24 && self.minute < 60
            && self.second < 60 && self.nanos < 1000000000
    }

    /// Builds an instant from raw fields, refusing any that lie outside
    /// their calendar range.
    pub fn new(year: u16, month: u8, day: u8, hour: u8, minute: u8, second: u8, nanos: u32) -> (r:
        Option<UtcInstant>)
        ensures
            ({
                let t = UtcInstant { year, month, day, hour, minute, second, nanos };
                if t.valid() {
                    r == Some(t)
                } else {
                    r is None
                }
            }),
    {
        let t = UtcInstant { year, month, day, hour, minute, second, nanos };
        if t.check_valid() {
            Some(t)
        } else {
            None
        }
    }
}

/// The six civil fields rendered fixed-width with the five given separators;
/// 19 characters in all. The sub-second part is not rendered here.
pub open spec fn civil_chars(t: UtcInstant, s1: char, s2: char, s3: char, s4: char, s5: char) -> Seq<
    char,
> {
    fixed_chars(t.year as nat, 4) + seq![s1] + fixed_chars(t.month as nat, 2) + seq![s2]
        + fixed_chars(t.day as nat, 2) + seq![s3] + fixed_chars(t.hour as nat, 2) + seq![s4]
        + fixed_chars(t.minute as nat, 2) + seq![s5] + fixed_chars(t.second as nat, 2)
}

/// The ISO-8601 UTC rendering: no fraction when the instant has no
/// sub-second part, nine fractional digits otherwise.
pub open spec fn iso_chars(t: UtcInstant) -> Seq<char> {
    civil_chars(t, '-', '-', 'T', ':', ':') + (if t.nanos == 0 {
        Seq::<char>::empty()
    } else {
        seq!['.'] + fixed_chars(t.nanos as nat, 9)
    }) + seq!['Z']
}

/// The embedded-metadata textual pattern `YYYY:MM:DD HH:MM:SS`.
pub open spec fn exif_dt_chars(t: UtcInstant) -> Seq<char> {
    civil_chars(t, ':', ':', ' ', ':', ':')
}

pub proof fn lemma_civil_chars_shape(t: UtcInstant, s1: char, s2: char, s3: char, s4: char, s5: char)
    ensures
        civil_chars(t, s1, s2, s3, s4, s5).len() == 19,
        civil_chars(t, s1, s2, s3, s4, s5)[4] == s1,
        civil_chars(t, s1, s2, s3, s4, s5)[7] == s2,
        civil_chars(t, s1, s2, s3, s4, s5)[10] == s3,
        civil_chars(t, s1, s2, s3, s4, s5)[13] == s4,
        civil_chars(t, s1, s2, s3, s4, s5)[16] == s5,
        civil_chars(t, s1, s2, s3, s4, s5).subrange(0, 4) =~= fixed_chars(t.year as nat, 4),
        civil_chars(t, s1, s2, s3, s4, s5).subrange(5, 7) =~= fixed_chars(t.month as nat, 2),
        civil_chars(t, s1, s2, s3, s4, s5).subrange(8, 10) =~= fixed_chars(t.day as nat, 2),
        civil_chars(t, s1, s2, s3, s4, s5).subrange(11, 13) =~= fixed_chars(t.hour as nat, 2),
        civil_chars(t, s1, s2, s3, s4, s5).subrange(14, 16) =~= fixed_chars(t.minute as nat, 2),
        civil_chars(t, s1, s2, s3, s4, s5).subrange(17, 19) =~= fixed_chars(t.second as nat, 2),
{
    lemma_fixed_chars_len(t.year as nat, 4);
    lemma_fixed_chars_len(t.month as nat, 2);
    lemma_fixed_chars_len(t.day as nat, 2);
    lemma_fixed_chars_len(t.hour as nat, 2);
    lemma_fixed_chars_len(t.minute as nat, 2);
    lemma_fixed_chars_len(t.second as nat, 2);
}

/// No two distinct valid instants have the same ISO-8601 rendering.
pub proof fn lemma_iso_chars_injective(a: UtcInstant, b: UtcInstant)
    requires
        a.valid(),
        b.valid(),
        iso_chars(a) == iso_chars(b),
    ensures
        a == b,
{
    lemma_pow10_9();
    lemma_civil_chars_shape(a, '-', '-', 'T', ':', ':');
    lemma_civil_chars_shape(b, '-', '-', 'T', ':', ':');
    if a.nanos != 0 {
        lemma_fixed_chars_len(a.nanos as nat, 9);
    }
    if b.nanos != 0 {
        lemma_fixed_chars_len(b.nanos as nat, 9);
    }
    assert(iso_chars(a).len() == if a.nanos == 0 {
        20int
    } else {
        30int
    });
    assert(iso_chars(b).len() == if b.nanos == 0 {
        20int
    } else {
        30int
    });
    assert(iso_chars(a).subrange(0, 19) =~= civil_chars(a, '-', '-', 'T', ':', ':'));
    assert(iso_chars(b).subrange(0, 19) =~= civil_chars(b, '-', '-', 'T', ':', ':'));
    let ca = civil_chars(a, '-', '-', 'T', ':', ':');
    let cb = civil_chars(b, '-', '-', 'T', ':', ':');
    assert(ca == cb);
    assert(fixed_chars(a.year as nat, 4) == fixed_chars(b.year as nat, 4)) by {
        assert(ca.subrange(0, 4) == cb.subrange(0, 4));
    }
    lemma_fixed_chars_val(a.year as nat, 4);
    lemma_fixed_chars_val(b.year as nat, 4);
    assert(fixed_chars(a.month as nat, 2) == fixed_chars(b.month as nat, 2)) by {
        assert(ca.subrange(5, 7) == cb.subrange(5, 7));
    }
    lemma_fixed_chars_val(a.month as nat, 2);
    lemma_fixed_chars_val(b.month as nat, 2);
    assert(fixed_chars(a.day as nat, 2) == fixed_chars(b.day as nat, 2)) by {
        assert(ca.subrange(8, 10) == cb.subrange(8, 10));
    }
    lemma_fixed_chars_val(a.day as nat, 2);
    lemma_fixed_chars_val(b.day as nat, 2);
    assert(fixed_chars(a.hour as nat, 2) == fixed_chars(b.hour as nat, 2)) by {
        assert(ca.subrange(11, 13) == cb.subrange(11, 13));
    }
    lemma_fixed_chars_val(a.hour as nat, 2);
    lemma_fixed_chars_val(b.hour as nat, 2);
    assert(fixed_chars(a.minute as nat, 2) == fixed_chars(b.minute as nat, 2)) by {
        assert(ca.subrange(14, 16) == cb.subrange(14, 16));
    }
    lemma_fixed_chars_val(a.minute as nat, 2);
    lemma_fixed_chars_val(b.minute as nat, 2);
    assert(fixed_chars(a.second as nat, 2) == fixed_chars(b.second as nat, 2)) by {
        assert(ca.subrange(17, 19) == cb.subrange(17, 19));
    }
    lemma_fixed_chars_val(a.second as nat, 2);
    lemma_fixed_chars_val(b.second as nat, 2);
    if a.nanos != 0 && b.nanos != 0 {
        assert(fixed_chars(a.nanos as nat, 9) == fixed_chars(b.nanos as nat, 9)) by {
            assert(iso_chars(a).subrange(20, 29) =~= fixed_chars(a.nanos as nat, 9));
            assert(iso_chars(b).subrange(20, 29) =~= fixed_chars(b.nanos as nat, 9));
        }
        lemma_fixed_chars_val(a.nanos as nat, 9);
        lemma_fixed_chars_val(b.nanos as nat, 9);
    }
}

/// Reads the six civil fields of the 19-character prefix of `s`, with the
/// given separator characters expected between them. Succeeds exactly on the
/// rendering of a valid instant without sub-second part.
fn parse_civil(s: &str, s1: char, s2: char, s3: char, s4: char, s5: char) -> (r: Option<UtcInstant>)
    requires
        s@.len() >= 19,
    ensures
        r matches Some(t) ==> t.valid() && t.nanos == 0 && s@.subrange(0, 19) =~= civil_chars(
            t,
            s1,
            s2,
            s3,
            s4,
            s5,
        ),
        forall|t: UtcInstant|
            t.valid() && t.nanos == 0 && s@.subrange(0, 19) == civil_chars(t, s1, s2, s3, s4, s5)
                ==> r == Some(t),
{
    proof {
        lemma_pow10_9();
    }
    let ghost pre = s@.subrange(0, 19);
    if !(s.get_char(4) == s1 && s.get_char(7) == s2 && s.get_char(10) == s3 && s.get_char(13) == s4
        && s.get_char(16) == s5) {
        proof {
            assert forall|t: UtcInstant|
                t.valid() && t.nanos == 0 && pre == civil_chars(t, s1, s2, s3, s4, s5) implies false by {
                lemma_civil_chars_shape(t, s1, s2, s3, s4, s5);
                assert(pre[4] == s@[4] && pre[7] == s@[7] && pre[10] == s@[10] && pre[13] == s@[13]
                    && pre[16] == s@[16]);
            }
        }
        return None;
    }
    let fields = (
        read_fixed(s, 0, 4),
        read_fixed(s, 5, 2),
        read_fixed(s, 8, 2),
        read_fixed(s, 11, 2),
        read_fixed(s, 14, 2),
        read_fixed(s, 17, 2),
    );
    proof {
        assert(pre.subrange(0, 4) =~= s@.subrange(0, 4));
        assert(pre.subrange(5, 7) =~= s@.subrange(5, 7));
        assert(pre.subrange(8, 10) =~= s@.subrange(8, 10));
        assert(pre.subrange(11, 13) =~= s@.subrange(11, 13));
        assert(pre.subrange(14, 16) =~= s@.subrange(14, 16));
        assert(pre.subrange(17, 19) =~= s@.subrange(17, 19));
    }
    match fields {
        (Some(year), Some(month), Some(day), Some(hour), Some(minute), Some(second)) => {
            let cand = UtcInstant {
                year: year as u16,
                month: month as u8,
                day: day as u8,
                hour: hour as u8,
                minute: minute as u8,
                second: second as u8,
                nanos: 0,
            };
            proof {
                assert forall|t: UtcInstant|
                    t.valid() && t.nanos == 0 && pre == civil_chars(
                        t,
                        s1,
                        s2,
                        s3,
                        s4,
                        s5,
                    ) implies t == cand by {
                    lemma_civil_chars_shape(t, s1, s2, s3, s4, s5);
                    lemma_fixed_chars_val(t.year as nat, 4);
                    lemma_fixed_chars_val(t.month as nat, 2);
                    lemma_fixed_chars_val(t.day as nat, 2);
                    lemma_fixed_chars_val(t.hour as nat, 2);
                    lemma_fixed_chars_val(t.minute as nat, 2);
                    lemma_fixed_chars_val(t.second as nat, 2);
                }
            }
            if cand.check_valid() {
                proof {
                    lemma_digits_to_fixed(s@.subrange(0, 4));
                    lemma_digits_to_fixed(s@.subrange(5, 7));
                    lemma_digits_to_fixed(s@.subrange(8, 10));
                    lemma_digits_to_fixed(s@.subrange(11, 13));
                    lemma_digits_to_fixed(s@.subrange(14, 16));
                    lemma_digits_to_fixed(s@.subrange(17, 19));
                    lemma_civil_chars_shape(cand, s1, s2, s3, s4, s5);
                    assert(pre =~= civil_chars(cand, s1, s2, s3, s4, s5));
                }
                Some(cand)
            } else {
                None
            }
        },
        _ => {
            proof {
                assert forall|t: UtcInstant|
                    t.valid() && t.nanos == 0 && pre == civil_chars(
                        t,
                        s1,
                        s2,
                        s3,
                        s4,
                        s5,
                    ) implies false by {
                    lemma_civil_chars_shape(t, s1, s2, s3, s4, s5);
                    lemma_fixed_chars_len(t.year as nat, 4);
                    lemma_fixed_chars_len(t.month as nat, 2);
                    lemma_fixed_chars_len(t.day as nat, 2);
                    lemma_fixed_chars_len(t.hour as nat, 2);
                    lemma_fixed_chars_len(t.minute as nat, 2);
                    lemma_fixed_chars_len(t.second as nat, 2);
                }
            }
            None
        },
    }
}

/// Parses the embedded-metadata capture-time pattern `YYYY:MM:DD HH:MM:SS`,
/// interpreted as UTC. Any text that is not exactly the rendering of a valid
/// instant yields `None`, never an error.
pub fn parse_exif_datetime(s: &str) -> (r: Option<UtcInstant>)
    ensures
        r matches Some(t) ==> t.valid() && t.nanos == 0 && s@ =~= exif_dt_chars(t),
        forall|t: UtcInstant|
            t.valid() && t.nanos == 0 && s@ == exif_dt_chars(t) ==> r == Some(t),
{
    let n = s.unicode_len();
    if n != 19 {
        proof {
            assert forall|t: UtcInstant|
                t.valid() && t.nanos == 0 && s@ == exif_dt_chars(t) implies false by {
                lemma_civil_chars_shape(t, ':', ':', ' ', ':', ':');
            }
        }
        return None;
    }
    let r = parse_civil(s, ':', ':', ' ', ':', ':');
    proof {
        assert(s@.subrange(0, 19) =~= s@);
    }
    r
}

/// Renders the instant in its ISO-8601 UTC form.
pub fn render_iso(t: &UtcInstant) -> (r: String)
    ensures
        r@ =~= iso_chars(*t),
{
    let mut out = String::new();
    push_fixed(&mut out, t.year as u64, 4);
    out.append("-");
    push_fixed(&mut out, t.month as u64, 2);
    out.append("-");
    push_fixed(&mut out, t.day as u64, 2);
    out.append("T");
    push_fixed(&mut out, t.hour as u64, 2);
    out.append(":");
    push_fixed(&mut out, t.minute as u64, 2);
    out.append(":");
    push_fixed(&mut out, t.second as u64, 2);
    if t.nanos != 0 {
        out.append(".");
        push_fixed(&mut out, t.nanos as u64, 9);
    }
    out.append("Z");
    proof {
        reveal_strlit("-");
        reveal_strlit("T");
        reveal_strlit(":");
        reveal_strlit(".");
        reveal_strlit("Z");
        assert(out@ =~= iso_chars(*t));
    }
    out
}

/// Parses the ISO-8601 UTC form produced by `render_iso`. Succeeds exactly
/// on the rendering of a valid instant.
pub fn parse_iso(s: &str) -> (r: Option<UtcInstant>)
    ensures
        r matches Some(t) ==> t.valid() && s@ =~= iso_chars(t),
        forall|t: UtcInstant| t.valid() && s@ == iso_chars(t) ==> r == Some(t),
{
    let n = s.unicode_len();
    proof {
        assert forall|t: UtcInstant| t.valid() && s@ == iso_chars(t) implies (s@.len() == 20
            && t.nanos == 0) || (s@.len() == 30 && t.nanos != 0) by {
            lemma_civil_chars_shape(t, '-', '-', 'T', ':', ':');
            if t.nanos != 0 {
                lemma_fixed_chars_len(t.nanos as nat, 9);
            }
        }
    }
    if n == 20 {
        let civ = parse_civil(s, '-', '-', 'T', ':', ':');
        let zed = s.get_char(19);
        proof {
            assert forall|t: UtcInstant| t.valid() && s@ == iso_chars(t) implies s@[19] == 'Z'
                && t.nanos == 0 && civ == Some(t) by {
                lemma_civil_chars_shape(t, '-', '-', 'T', ':', ':');
                assert(s@.subrange(0, 19) =~= civil_chars(t, '-', '-', 'T', ':', ':'));
            }
        }
        match civ {
            Some(cand) => {
                if zed == 'Z' {
                    proof {
                        assert(s@ =~= iso_chars(cand));
                    }
                    Some(cand)
                } else {
                    None
                }
            },
            None => None,
        }
    } else if n == 30 {
        let civ = parse_civil(s, '-', '-', 'T', ':', ':');
        let dot = s.get_char(19);
        let zed = s.get_char(29);
        let frac = read_fixed(s, 20, 9);
        proof {
            lemma_pow10_9();
            assert forall|t: UtcInstant| t.valid() && s@ == iso_chars(t) implies ({
                &&& s@[19] == '.'
                &&& s@[29] == 'Z'
                &&& t.nanos != 0
                &&& civ == Some(UtcInstant { nanos: 0, ..t })
                &&& frac == Some(t.nanos as u64)
            }) by {
                lemma_civil_chars_shape(t, '-', '-', 'T', ':', ':');
                lemma_fixed_chars_len(t.nanos as nat, 9);
                assert(t.nanos != 0);
                assert(iso_chars(t).len() == 30);
                assert(s@.subrange(0, 19) =~= civil_chars(t, '-', '-', 'T', ':', ':'));
                assert(s@.subrange(20, 29) =~= fixed_chars(t.nanos as nat, 9));
                assert(s@[19] == '.');
                assert(s@[29] == 'Z');
                let civ_t = UtcInstant { nanos: 0, ..t };
                assert(civil_chars(civ_t, '-', '-', 'T', ':', ':') == civil_chars(
                    t,
                    '-',
                    '-',
                    'T',
                    ':',
                    ':',
                ));
                assert(civ_t.valid());
                assert(civ == Some(civ_t));
                lemma_fixed_chars_val(t.nanos as nat, 9);
                assert(all_digits(s@.subrange(20, 29)));
                assert(frac == Some(t.nanos as u64));
            }
        }
        match (civ, frac) {
            (Some(cand), Some(nanos)) => {
                if dot == '.' && zed == 'Z' && nanos != 0 {
                    proof {
                        lemma_pow10_9();
                    }
                    let full = UtcInstant { nanos: nanos as u32, ..cand };
                    proof {
                        lemma_digits_to_fixed(s@.subrange(20, 29));
                        assert(s@.subrange(20, 29) =~= fixed_chars(nanos as nat, 9));
                        assert(s@ =~= iso_chars(full));
                    }
                    Some(full)
                } else {
                    None
                }
            },
            _ => None,
        }
    } else {
        None
    }
}

} // verus!
