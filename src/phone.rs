//! The loaded data file and the queries against it.
use vstd::prelude::*;
use vstd::utf8::{decode_utf8, valid_utf8};

use crate::carrier::{carrier_name, Isp};
use crate::error::PhoneError;
use crate::index::{entry_at, entry_count, find, ENTRY_SIZE, has_prefix, index_sorted, prefix_at, IndexData};
use crate::record::{decode_record, record_fields, RecordData};
use crate::util::{
    decimal_value, expand_home, le_value, lemma_le_value_bound, pow256, parse_prefix, prefix_ok, replace_home, u8_i32,
};

verus! {

/// Where the data file is cached, before `~` is expanded.
pub const DEFAULT_DATA_PATH: &'static str = "~/.cache/phoner/phone.dat";

/// Length in bytes of the file header.
pub const HEADER_SIZE: usize = 8;

/// What `String::from_utf8_lossy` makes of `b`.
pub uninterp spec fn lossy_text(b: Seq<u8>) -> Seq<char>;

/// Relies on `String::from_utf8_lossy`: the text depends on the bytes alone,
/// and valid UTF-8 is decoded unchanged.
#[verifier::external_body]
fn utf8_lossy(b: &[u8]) -> (r: String)
    ensures
        r@ == lossy_text(b@),
        valid_utf8(b@) ==> r@ == decode_utf8(b@),
{
    String::from_utf8_lossy(b).into_owned()
}

/// A data file, split into its header fields and its two segments.
#[derive(Debug)]
pub struct PhoneData {
    /// Where the file is read from.
    pub data_path: String,
    /// The 4-byte version tag, decoded for display.
    pub version: String,
    /// Absolute position of the index segment.
    pub start_index: u32,
    /// The record segment, file bytes `[8, start_index)`.
    pub record: Vec<u8>,
    /// The index segment, file bytes `[start_index, end)`.
    pub index: Vec<u8>,
    /// Length of the file in bytes.
    pub size: u64,
}

/// The index entry that carries `prefix`, on an index that has one.
pub open spec fn matched_entry(index: Seq<u8>, prefix: int) -> IndexData {
    entry_at(index, choose|i: int| 0 <= i < entry_count(index) && #[trigger] prefix_at(index, i) == prefix)
}

/// `d` holds the fields of the record that entry `e` points to, and the
/// name of its carrier.
pub open spec fn record_for_entry(record: Seq<u8>, e: IndexData, d: RecordData) -> bool {
    let f = record_fields(record, e.offset as int)->0;
    &&& record_fields(record, e.offset as int) is Some
    &&& d.province@ == f[0]
    &&& d.city@ == f[1]
    &&& d.zip_code@ == f[2]
    &&& d.area_code@ == f[3]
    &&& d.isp@ == carrier_name(e.isp)
}

impl PhoneData {
    /// The default data path, with `~` expanded to `home`.
    pub fn get_data_path(home: &str) -> (r: String)
        ensures
            r@ == expand_home(DEFAULT_DATA_PATH@, home@),
    {
        replace_home(DEFAULT_DATA_PATH, home)
    }

    /// An unloaded store for the file at `data_path` (the default path when
    /// none is given), with `~` expanded to `home`.
    pub fn new(data_path: Option<&str>, home: &str) -> (r: Self)
        ensures
            r.data_path@ == expand_home(
                match data_path {
                    Some(p) => p@,
                    None => DEFAULT_DATA_PATH@,
                },
                home@,
            ),
            r.version@ == Seq::<char>::empty(),
            r.start_index == 0,
            r.record@ == Seq::<u8>::empty(),
            r.index@ == Seq::<u8>::empty(),
            r.size == 0,
    {
        let p = match data_path {
            Some(p) => p,
            None => DEFAULT_DATA_PATH,
        };
        PhoneData {
            data_path: replace_home(p, home),
            version: String::new(),
            start_index: 0,
            record: Vec::new(),
            index: Vec::new(),
            size: 0,
        }
    }

    /// Splits the whole content `bytes` of the data file into the header
    /// fields and the two segments. A file shorter than the header, or whose
    /// index position lies before the end of the header or past the end of
    /// the file, is a `Format` error and leaves the store unchanged.
    pub fn init(&mut self, bytes: Vec<u8>) -> (r: Result<(), PhoneError>)
        ensures
            ({
                let b = bytes@;
                let start = if b.len() >= 8 {
                    le_value(b.subrange(4, 8))
                } else {
                    0
                };
                &&& r is Ok <==> (b.len() >= 8 && 8 <= start <= b.len())
                &&& r matches Err(e) ==> e is Format && *final(self) == *old(self)
                &&& r is Ok ==> {
                    &&& final(self).data_path == old(self).data_path
                    &&& final(self).version@ == lossy_text(b.subrange(0, 4))
                    &&& final(self).start_index as int == start
                    &&& final(self).record@ == b.subrange(8, start as int)
                    &&& final(self).index@ == b.subrange(start as int, b.len() as int)
                    &&& final(self).size == b.len()
                }
            }),
    {
        let mut bytes = bytes;
        let len = bytes.len();
        if len < HEADER_SIZE {
            return Err(PhoneError::Format("file is shorter than its header".to_owned()));
        }
        let raw = u8_i32(&bytes[4..8]);
        let start: u32 = if raw >= 0 {
            raw as u32
        } else {
            (raw as i64 + 0x1_0000_0000) as u32
        };
        proof {
            lemma_le_value_bound(bytes@.subrange(4, 8));
            reveal_with_fuel(pow256, 5);
        }
        if (start as usize) < HEADER_SIZE || start as usize > len {
            return Err(PhoneError::Format("index position lies outside the file".to_owned()));
        }
        let ghost b = bytes@;
        let index = bytes.split_off(start as usize);
        let record = bytes.split_off(HEADER_SIZE);
        let version = utf8_lossy(&bytes[0..4]);
        proof {
            assert(bytes@.subrange(0, 4) =~= b.subrange(0, 4));
        }
        self.version = version;
        self.start_index = start;
        self.record = record;
        self.index = index;
        self.size = len as u64;
        Ok(())
    }

    /// Number of entries in the index segment.
    pub fn entry_count(&self) -> (r: usize)
        ensures
            r as int == entry_count(self.index@),
    {
        self.index.len() / ENTRY_SIZE
    }

    /// Looks up the index entry for the first seven digits of `phone`.
    /// An empty index is `Uninitialized`; a bad prefix is `Parse`.
    pub fn search_index(&self, phone: &str) -> (r: Result<Option<IndexData>, PhoneError>)
        ensures
            self.index@.len() == 0 ==> (r matches Err(e) && e is Uninitialized),
            self.index@.len() > 0 && !prefix_ok(phone@) ==> (r matches Err(e) && e is Parse),
            self.index@.len() > 0 && prefix_ok(phone@) ==> r is Ok,
            r matches Ok(Some(e)) ==> exists|i: int|
                0 <= i < entry_count(self.index@) && #[trigger] prefix_at(self.index@, i)
                    == decimal_value(phone@, 7) && e == entry_at(self.index@, i),
            r is Ok && index_sorted(self.index@) ==> (r matches Ok(None) <==> !has_prefix(
                self.index@,
                decimal_value(phone@, 7),
            )),
    {
        if self.index.len() == 0 {
            return Err(PhoneError::Uninitialized);
        }
        let prefix = parse_prefix(phone)?;
        find(self.index.as_slice(), prefix)
    }

    /// Resolves `phone` to its record and carrier name. Beyond the errors of
    /// `search_index`, a prefix without an entry is `NotFound` and a
    /// malformed record is `Format`.
    pub fn query(&self, phone: &str) -> (r: Result<RecordData, PhoneError>)
        ensures
            self.index@.len() == 0 ==> (r matches Err(e) && e is Uninitialized),
            self.index@.len() > 0 && !prefix_ok(phone@) ==> (r matches Err(e) && e is Parse),
            r matches Ok(d) ==> exists|i: int|
                0 <= i < entry_count(self.index@) && #[trigger] prefix_at(self.index@, i)
                    == decimal_value(phone@, 7) && record_for_entry(
                    self.record@,
                    entry_at(self.index@, i),
                    d,
                ),
            self.index@.len() > 0 && prefix_ok(phone@) && index_sorted(self.index@) ==> ({
                let p = decimal_value(phone@, 7);
                let e = matched_entry(self.index@, p);
                &&& !has_prefix(self.index@, p) ==> (r matches Err(x) && x is NotFound)
                &&& has_prefix(self.index@, p) ==> {
                    &&& r is Ok <==> record_fields(self.record@, e.offset as int) is Some
                    &&& r matches Ok(d) ==> record_for_entry(self.record@, e, d)
                    &&& r matches Err(x) ==> x is Format
                }
            }),
    {
        let found = match self.search_index(phone) {
            Ok(found) => found,
            Err(e) => return Err(e),
        };
        let entry = match found {
            Some(entry) => entry,
            None => return Err(PhoneError::NotFound),
        };
        let ghost p = decimal_value(phone@, 7);
        proof {
            if index_sorted(self.index@) {
                let i = choose|i: int|
                    0 <= i < entry_count(self.index@) && #[trigger] prefix_at(self.index@, i) == p
                        && entry == entry_at(self.index@, i);
                assert(has_prefix(self.index@, p));
                let j = choose|j: int|
                    0 <= j < entry_count(self.index@) && #[trigger] prefix_at(self.index@, j) == p;
                if i < j {
                    assert(prefix_at(self.index@, i) < prefix_at(self.index@, j));
                } else if j < i {
                    assert(prefix_at(self.index@, j) < prefix_at(self.index@, i));
                }
                assert(entry == matched_entry(self.index@, p));
            }
        }
        let mut record = match self.read_recrod(entry.offset) {
            Ok(record) => record,
            Err(e) => return Err(e),
        };
        if let Some(isp) = Isp::from_u8(entry.isp) {
            record.isp = isp.get_name();
        }
        Ok(record)
    }

    /// Decodes the record at absolute file offset `offset`.
    pub fn read_recrod(&self, offset: i32) -> (r: Result<RecordData, PhoneError>)
        ensures
            r is Ok <==> record_fields(self.record@, offset as int) is Some,
            r matches Err(e) ==> e is Format,
            r matches Ok(d) ==> {
                let f = record_fields(self.record@, offset as int)->0;
                &&& d.province@ == f[0]
                &&& d.city@ == f[1]
                &&& d.zip_code@ == f[2]
                &&& d.area_code@ == f[3]
                &&& d.isp@ == Seq::<char>::empty()
            },
    {
        decode_record(self.record.as_slice(), offset)
    }
}

} // verus!
