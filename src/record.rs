//! The record segment: NUL-terminated, `|`-delimited text records.
use vstd::prelude::*;
use vstd::utf8::{decode_utf8, valid_utf8};

use crate::error::PhoneError;

verus! {

/// Absolute file position at which the record segment starts.
pub const RECORD_BASE: i32 = 8;

/// Delimiter between the fields of a record.
pub const FIELD_SEP: char = '|';

/// A decoded record, with the carrier name that a query adds.
#[derive(Debug)]
pub struct RecordData {
    pub province: String,
    pub city: String,
    pub zip_code: String,
    pub area_code: String,
    pub isp: String,
}

impl RecordData {
    /// The place as shown to a user: the province followed by the city, or
    /// the province alone where the two are the same.
    pub fn place(&self) -> (r: String)
        ensures
            r@ == if self.province@ == self.city@ {
                self.province@
            } else {
                self.province@ + self.city@
            },
    {
        let mut out = self.province.clone();
        if !(self.province == self.city) {
            out.append(self.city.as_str());
        }
        out
    }
}

/// First position at or after `i` that holds a NUL byte, or the end of `seg`.
pub open spec fn run_end(seg: Seq<u8>, i: int) -> int
    decreases seg.len() - i,
{
    if i < 0 || i >= seg.len() || seg[i] == 0 {
        i
    } else {
        run_end(seg, i + 1)
    }
}

/// The bytes of the record at absolute file offset `offset`: from
/// `offset - 8` up to the first NUL byte; empty where `offset - 8` lies
/// outside the segment.
pub open spec fn record_run(seg: Seq<u8>, offset: int) -> Seq<u8> {
    let start = offset - 8;
    if start < 0 || start >= seg.len() {
        Seq::empty()
    } else {
        seg.subrange(start, run_end(seg, start))
    }
}

/// `s` cut at every occurrence of `sep`; an empty text gives one empty field.
pub open spec fn split_on(s: Seq<char>, sep: char) -> Seq<Seq<char>>
    decreases s.len(),
{
    if s.len() == 0 {
        seq![Seq::empty()]
    } else {
        let prev = split_on(s.drop_last(), sep);
        if s.last() == sep {
            prev.push(Seq::empty())
        } else {
            prev.drop_last().push(prev.last().push(s.last()))
        }
    }
}

/// The four fields of the record at `offset`, when its bytes are valid
/// UTF-8 and split into exactly four fields.
pub open spec fn record_fields(seg: Seq<u8>, offset: int) -> Option<Seq<Seq<char>>> {
    let run = record_run(seg, offset);
    if valid_utf8(run) && split_on(decode_utf8(run), FIELD_SEP).len() == 4 {
        Some(split_on(decode_utf8(run), FIELD_SEP))
    } else {
        None
    }
}

/// Relies on `String::from_utf8`: it succeeds exactly on valid UTF-8 and
/// then holds the decoded characters.
#[verifier::external_body]
fn utf8_text(bytes: Vec<u8>) -> (r: Option<String>)
    ensures
        r is Some <==> valid_utf8(bytes@),
        r matches Some(t) ==> t@ == decode_utf8(bytes@),
{
    String::from_utf8(bytes).ok()
}

/// Copies the NUL-terminated run of the record at absolute offset `offset`.
pub fn record_bytes(seg: &[u8], offset: i32) -> (r: Vec<u8>)
    ensures
        r@ == record_run(seg@, offset as int),
{
    let len = seg.len();
    let mut out: Vec<u8> = Vec::new();
    if offset < RECORD_BASE || (offset - RECORD_BASE) as usize >= len {
        return out;
    }
    let start = (offset - RECORD_BASE) as usize;
    let mut j: usize = start;
    while j < len && seg[j] != 0
        invariant
            len == seg@.len(),
            start <= j <= len,
            start < len,
            run_end(seg@, start as int) == run_end(seg@, j as int),
            out@ == seg@.subrange(start as int, j as int),
        decreases len - j,
    {
        out.push(seg[j]);
        j = j + 1;
        proof {
            assert(out@ =~= seg@.subrange(start as int, j as int));
        }
    }
    out
}

/// Cuts `text` at every `sep`.
pub fn split_text(text: &str, sep: char) -> (r: Vec<String>)
    ensures
        r@.map_values(|f: String| f@) == split_on(text@, sep),
{
    let n = text.unicode_len();
    let mut fields: Vec<String> = Vec::new();
    let mut start: usize = 0;
    let mut i: usize = 0;
    proof {
        assert(text@.take(0) =~= Seq::<char>::empty());
        assert(fields@.map_values(|f: String| f@).push(text@.subrange(0, 0)) =~= split_on(
            text@.take(0),
            sep,
        ));
    }
    while i < n
        invariant
            n == text@.len(),
            start <= i <= n,
            fields@.map_values(|f: String| f@).push(text@.subrange(start as int, i as int))
                == split_on(text@.take(i as int), sep),
        decreases n - i,
    {
        let c = text.get_char(i);
        let ghost before = fields@.map_values(|f: String| f@);
        let ghost old_start = start;
        let ghost prev = split_on(text@.take(i as int), sep);
        proof {
            assert(text@.take(i + 1).drop_last() =~= text@.take(i as int));
            assert(text@.take(i + 1).last() == c);
            assert(prev == before.push(text@.subrange(old_start as int, i as int)));
        }
        if c == sep {
            let field = text.substring_char(start, i).to_owned();
            fields.push(field);
            start = i + 1;
            proof {
                assert(fields@.map_values(|f: String| f@) =~= before.push(
                    text@.subrange(old_start as int, i as int),
                ));
                assert(text@.subrange(start as int, i + 1) =~= Seq::<char>::empty());
                assert(split_on(text@.take(i + 1), sep) == prev.push(Seq::<char>::empty()));
            }
        } else {
            proof {
                assert(prev.drop_last() =~= before);
                assert(text@.subrange(old_start as int, i + 1) =~= text@.subrange(
                    old_start as int,
                    i as int,
                ).push(c));
                assert(split_on(text@.take(i + 1), sep) == prev.drop_last().push(
                    prev.last().push(c),
                ));
            }
        }
        i = i + 1;
    }
    let last = text.substring_char(start, n).to_owned();
    let ghost before = fields@.map_values(|f: String| f@);
    fields.push(last);
    proof {
        assert(fields@.map_values(|f: String| f@) =~= before.push(
            text@.subrange(start as int, n as int),
        ));
        assert(text@.take(n as int) =~= text@);
    }
    fields
}

/// Decodes the record at absolute file offset `offset` of the record
/// segment `seg`. The carrier name is left empty.
pub fn decode_record(seg: &[u8], offset: i32) -> (r: Result<RecordData, PhoneError>)
    ensures
        r is Ok <==> record_fields(seg@, offset as int) is Some,
        r matches Err(e) ==> e is Format,
        r matches Ok(d) ==> {
            let f = record_fields(seg@, offset as int)->0;
            &&& d.province@ == f[0]
            &&& d.city@ == f[1]
            &&& d.zip_code@ == f[2]
            &&& d.area_code@ == f[3]
            &&& d.isp@ == Seq::<char>::empty()
        },
{
    let run = record_bytes(seg, offset);
    let ghost run_view = run@;
    match utf8_text(run) {
        None => Err(PhoneError::Format("record is not valid UTF-8".to_owned())),
        Some(text) => {
            let fields = split_text(text.as_str(), FIELD_SEP);
            let ghost views = fields@.map_values(|f: String| f@);
            assert(views.len() == fields@.len());
            if fields.len() != 4 {
                Err(PhoneError::Format(text))
            } else {
                assert(views[0] == fields@[0]@ && views[1] == fields@[1]@);
                assert(views[2] == fields@[2]@ && views[3] == fields@[3]@);
                Ok(
                    RecordData {
                        province: fields[0].clone(),
                        city: fields[1].clone(),
                        zip_code: fields[2].clone(),
                        area_code: fields[3].clone(),
                        isp: String::new(),
                    },
                )
            }
        },
    }
}

} // verus!
