//! One normalized row of recipient data, and the decoding of raw rows.

use vstd::prelude::*;
use vstd::string::*;
use crate::text::{contains_char, trim_spec, trim_str};
use crate::translator::{pad_code, translate_spec, zero_pad4, Translator};

verus! {

/// The number of columns an input row must provide: id, email, first
/// name, last name, address1, city, region, postal code, country code and
/// phone. There is no input column for address2.
pub const INPUT_COLUMNS: usize = 10;

/// A normalized record, immutable once constructed.
#[derive(Debug)]
pub struct Record {
    pub id: String,
    pub email: String,
    pub first_name: String,
    pub last_name: String,
    pub address1: String,
    pub address2: String,
    pub city: String,
    pub region: String,
    pub postal_code: String,
    pub country: String,
    pub phone: String,
}

/// The mathematical value of a Record: its fields as character sequences.
pub struct RecordView {
    pub id: Seq<char>,
    pub email: Seq<char>,
    pub first_name: Seq<char>,
    pub last_name: Seq<char>,
    pub address1: Seq<char>,
    pub address2: Seq<char>,
    pub city: Seq<char>,
    pub region: Seq<char>,
    pub postal_code: Seq<char>,
    pub country: Seq<char>,
    pub phone: Seq<char>,
}

impl View for Record {
    type V = RecordView;

    open spec fn view(&self) -> RecordView {
        RecordView {
            id: self.id@,
            email: self.email@,
            first_name: self.first_name@,
            last_name: self.last_name@,
            address1: self.address1@,
            address2: self.address2@,
            city: self.city@,
            region: self.region@,
            postal_code: self.postal_code@,
            country: self.country@,
            phone: self.phone@,
        }
    }
}

impl DeepView for Record {
    type V = RecordView;

    open spec fn deep_view(&self) -> RecordView {
        self.view()
    }
}

/// The group key of a record: its country and region joined by an
/// underscore.
pub open spec fn key_of(r: RecordView) -> Seq<char> {
    r.country + seq!['_'] + r.region
}

/// The phone field after redaction: empty when the raw value contains a
/// '+' anywhere, the trimmed raw value otherwise.
pub open spec fn clean_phone_spec(phone: Seq<char>) -> Seq<char> {
    if phone.contains('+') {
        Seq::empty()
    } else {
        trim_spec(phone)
    }
}

/// Redacts internationally formatted phone numbers: a value containing
/// '+' becomes empty, any other value is trimmed.
pub fn clean_phone_number(phone: &str) -> (r: String)
    ensures
        r@ == clean_phone_spec(phone@),
{
    if contains_char(phone, '+') {
        String::new()
    } else {
        trim_str(phone)
    }
}

/// The Record a raw row of at least `INPUT_COLUMNS` fields decodes to.
pub open spec fn decode_spec(row: Seq<Seq<char>>) -> RecordView {
    RecordView {
        id: trim_spec(row[0]),
        email: trim_spec(row[1]),
        first_name: trim_spec(row[2]),
        last_name: trim_spec(row[3]),
        address1: trim_spec(row[4]),
        address2: Seq::empty(),
        city: trim_spec(row[5]),
        region: trim_spec(row[6]),
        postal_code: trim_spec(row[7]),
        country: translate_spec(zero_pad4(row[8])),
        phone: clean_phone_spec(row[9]),
    }
}

/// A row that cannot be decoded: it has fewer fields than the schema's
/// column count.
#[derive(Debug, Clone, Copy, PartialEq, Eq, Structural)]
pub struct DecodeError {
    pub fields_found: usize,
}

/// The first failing row of a read, reported with its 1-based line number
/// counted as if the file began with a header row.
#[derive(Debug, Clone, Copy, PartialEq, Eq, Structural)]
pub struct ReadError {
    pub line: usize,
    pub fields_found: usize,
}

impl Record {
    /// The key the record is grouped under.
    pub fn key(&self) -> (k: String)
        ensures
            k@ == key_of(self@),
    {
        let mut k = self.country.clone();
        k.append("_");
        k.append(self.region.as_str());
        proof {
            reveal_strlit("_");
            assert(k@ =~= key_of(self@));
        }
        k
    }

    /// An identical copy of the record.
    pub fn duplicate(&self) -> (r: Record)
        ensures
            r@ == self@,
    {
        Record {
            id: self.id.clone(),
            email: self.email.clone(),
            first_name: self.first_name.clone(),
            last_name: self.last_name.clone(),
            address1: self.address1.clone(),
            address2: self.address2.clone(),
            city: self.city.clone(),
            region: self.region.clone(),
            postal_code: self.postal_code.clone(),
            country: self.country.clone(),
            phone: self.phone.clone(),
        }
    }

    /// Decodes one raw row: trims the plain fields, synthesizes an empty
    /// address2, zero-pads and translates the country code, and redacts
    /// the phone number. Fails exactly when the row has too few fields.
    pub fn decode(translator: &Translator, row: &Vec<String>) -> (r: Result<Record, DecodeError>)
        ensures
            match r {
                Ok(rec) => row@.len() >= INPUT_COLUMNS && rec@ == decode_spec(row.deep_view()),
                Err(e) => row@.len() < INPUT_COLUMNS && e.fields_found == row@.len(),
            },
    {
        if row.len() < INPUT_COLUMNS {
            return Err(DecodeError { fields_found: row.len() });
        }
        let padded = pad_code(row[8].as_str());
        let rec = Record {
            id: trim_str(row[0].as_str()),
            email: trim_str(row[1].as_str()),
            first_name: trim_str(row[2].as_str()),
            last_name: trim_str(row[3].as_str()),
            address1: trim_str(row[4].as_str()),
            address2: String::new(),
            city: trim_str(row[5].as_str()),
            region: trim_str(row[6].as_str()),
            postal_code: trim_str(row[7].as_str()),
            country: translator.translate(padded.as_str()),
            phone: clean_phone_number(row[9].as_str()),
        };
        proof {
            let rv = row.deep_view();
            assert(forall|i: int| 0 <= i < row@.len() ==> rv[i] == row@[i].deep_view());
        }
        Ok(rec)
    }
}

/// Whether a raw row has enough fields to decode.
pub open spec fn row_ok(row: Seq<Seq<char>>) -> bool {
    row.len() >= INPUT_COLUMNS
}

/// Whether every row of the input decodes.
pub open spec fn all_rows_ok(rows: Seq<Seq<Seq<char>>>) -> bool {
    forall|i: int| 0 <= i < rows.len() ==> row_ok(#[trigger] rows[i])
}

/// The records the rows decode to, in input order.
pub open spec fn decode_all(rows: Seq<Seq<Seq<char>>>) -> Seq<RecordView> {
    Seq::new(rows.len(), |i: int| decode_spec(rows[i]))
}

/// Decodes the full input, preserving row order. The whole read fails on
/// the first row that does not decode, reported with its line number:
/// row i (0-based) is line i + 2, as if a header row had been consumed
/// before the loop began.
pub fn pull_records(translator: &Translator, rows: &Vec<Vec<String>>) -> (r: Result<
    Vec<Record>,
    ReadError,
>)
    requires
        rows@.len() + 2 <= usize::MAX,
    ensures
        match r {
            Ok(recs) => all_rows_ok(rows.deep_view()) && recs.deep_view() == decode_all(
                rows.deep_view(),
            ),
            Err(e) => {
                &&& 2 <= e.line
                &&& e.line - 2 < rows.deep_view().len()
                &&& !row_ok(rows.deep_view()[e.line - 2])
                &&& e.fields_found == rows.deep_view()[e.line - 2].len()
                &&& forall|j: int|
                    0 <= j < e.line - 2 ==> row_ok(#[trigger] rows.deep_view()[j])
            },
        },
{
    let mut recs: Vec<Record> = Vec::new();
    let mut idx: usize = 0;
    while idx < rows.len()
        invariant
            0 <= idx <= rows@.len(),
            rows@.len() + 2 <= usize::MAX,
            recs@.len() == idx,
            forall|j: int| 0 <= j < idx ==> row_ok(#[trigger] rows.deep_view()[j]),
            forall|j: int|
                0 <= j < idx ==> #[trigger] recs.deep_view()[j] == decode_spec(
                    rows.deep_view()[j],
                ),
        decreases rows@.len() - idx,
    {
        proof {
            assert(rows.deep_view()[idx as int] == rows@[idx as int].deep_view());
        }
        match Record::decode(translator, &rows[idx]) {
            Ok(rec) => {
                let ghost pre = recs.deep_view();
                recs.push(rec);
                proof {
                    assert(recs.deep_view() =~= pre.push(rec.deep_view()));
                }
            },
            Err(e) => {
                return Err(ReadError { line: idx + 2, fields_found: e.fields_found });
            },
        }
        idx = idx + 1;
    }
    proof {
        assert(recs.deep_view() =~= decode_all(rows.deep_view()));
    }
    Ok(recs)
}

/// Redaction: a phone field containing '+' decodes to the empty phone;
/// any other phone field decodes to its trimmed value.
pub proof fn lemma_phone_redaction(row: Seq<Seq<char>>)
    requires
        row.len() >= INPUT_COLUMNS,
    ensures
        row[9].contains('+') ==> decode_spec(row).phone == Seq::<char>::empty(),
        !row[9].contains('+') ==> decode_spec(row).phone == trim_spec(row[9]),
{
}

} // verus!
