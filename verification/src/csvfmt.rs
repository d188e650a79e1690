//! The tabular text format: comma-separated fields, one record per line,
//! standard quoting for fields that embed commas, quotes or line breaks.

use vstd::prelude::*;
use vstd::string::*;
use crate::record::{Record, RecordView};
use crate::text::contains_char;

verus! {

/// Where the parser stands inside a row.
#[derive(PartialEq, Eq, Structural, Clone, Copy, Debug)]
pub enum ParseState {
    /// At the start of a field.
    FieldStart,
    /// Inside an unquoted field.
    Unquoted,
    /// Inside a quoted field.
    Quoted,
    /// Just after a quote character inside a quoted field.
    QuoteSeen,
}

/// The parser's whole state: the finished rows, the open row, the open
/// field, and where it stands inside the row.
pub struct ParseAcc {
    pub rows: Seq<Seq<Seq<char>>>,
    pub row: Seq<Seq<char>>,
    pub field: Seq<char>,
    pub st: ParseState,
}

pub open spec fn parse_init() -> ParseAcc {
    ParseAcc {
        rows: Seq::empty(),
        row: Seq::empty(),
        field: Seq::empty(),
        st: ParseState::FieldStart,
    }
}

/// Whether the parser stands at the start of a line with nothing pending.
pub open spec fn at_line_start(a: ParseAcc) -> bool {
    a.st is FieldStart && a.row.len() == 0 && a.field.len() == 0
}

/// One character of input moves the parser one step. A comma closes a
/// field, a line break closes a row (a carriage return acts as a line
/// break, so "\r\n" closes the row once and blank lines are ignored), a
/// quote at the start of a field opens a quoted field, and a doubled
/// quote inside one stands for a literal quote.
pub open spec fn parse_step(a: ParseAcc, c: char) -> ParseAcc {
    match a.st {
        ParseState::FieldStart => {
            if c == '"' {
                ParseAcc { st: ParseState::Quoted, ..a }
            } else if c == ',' {
                ParseAcc { row: a.row.push(a.field), field: Seq::empty(), ..a }
            } else if c == '\n' || c == '\r' {
                if a.row.len() == 0 {
                    a
                } else {
                    ParseAcc {
                        rows: a.rows.push(a.row.push(a.field)),
                        row: Seq::empty(),
                        field: Seq::empty(),
                        st: ParseState::FieldStart,
                    }
                }
            } else {
                ParseAcc { field: a.field.push(c), st: ParseState::Unquoted, ..a }
            }
        },
        ParseState::Unquoted => {
            if c == ',' {
                ParseAcc { row: a.row.push(a.field), field: Seq::empty(), st: ParseState::FieldStart, ..a }
            } else if c == '\n' || c == '\r' {
                ParseAcc {
                    rows: a.rows.push(a.row.push(a.field)),
                    row: Seq::empty(),
                    field: Seq::empty(),
                    st: ParseState::FieldStart,
                }
            } else {
                ParseAcc { field: a.field.push(c), ..a }
            }
        },
        ParseState::Quoted => {
            if c == '"' {
                ParseAcc { st: ParseState::QuoteSeen, ..a }
            } else {
                ParseAcc { field: a.field.push(c), ..a }
            }
        },
        ParseState::QuoteSeen => {
            if c == '"' {
                ParseAcc { field: a.field.push('"'), st: ParseState::Quoted, ..a }
            } else if c == ',' {
                ParseAcc { row: a.row.push(a.field), field: Seq::empty(), st: ParseState::FieldStart, ..a }
            } else if c == '\n' || c == '\r' {
                ParseAcc {
                    rows: a.rows.push(a.row.push(a.field)),
                    row: Seq::empty(),
                    field: Seq::empty(),
                    st: ParseState::FieldStart,
                }
            } else {
                ParseAcc { field: a.field.push(c), st: ParseState::Unquoted, ..a }
            }
        },
    }
}

pub open spec fn parse_run(s: Seq<char>) -> ParseAcc
    decreases s.len(),
{
    if s.len() == 0 {
        parse_init()
    } else {
        parse_step(parse_run(s.drop_last()), s.last())
    }
}

/// At the end of the input an open row is closed; input that ends at a
/// line start (a trailing line break, or no input at all) adds nothing.
pub open spec fn parse_finish(a: ParseAcc) -> Seq<Seq<Seq<char>>> {
    if at_line_start(a) {
        a.rows
    } else {
        a.rows.push(a.row.push(a.field))
    }
}

/// The rows a text parses to.
pub open spec fn parse_spec(s: Seq<char>) -> Seq<Seq<Seq<char>>> {
    parse_finish(parse_run(s))
}

/// Parses the whole input text into raw rows of raw fields.
pub fn parse_rows(s: &str) -> (rows: Vec<Vec<String>>)
    ensures
        rows.deep_view() == parse_spec(s@),
        rows@.len() <= s@.len() + 1,
{
    let n = s.unicode_len();
    let mut rows: Vec<Vec<String>> = Vec::new();
    let mut row: Vec<String> = Vec::new();
    let mut field = String::new();
    let mut st = ParseState::FieldStart;
    let mut i: usize = 0;
    while i < n
        invariant
            0 <= i <= n,
            n == s@.len(),
            rows@.len() <= i,
            ({
                let a = parse_run(s@.take(i as int));
                &&& rows.deep_view() == a.rows
                &&& row.deep_view() == a.row
                &&& field@ == a.field
                &&& st == a.st
            }),
        decreases n - i,
    {
        let ghost a = parse_run(s@.take(i as int));
        let c = s.get_char(i);
        proof {
            assert(s@.take(i + 1).drop_last() =~= s@.take(i as int));
            assert(s@.take(i + 1).last() == s@[i as int]);
        }
        let ghost row_pre = row.deep_view();
        let ghost rows_pre = rows.deep_view();
        match st {
            ParseState::FieldStart => {
                if c == '"' {
                    st = ParseState::Quoted;
                } else if c == ',' {
                    row.push(field);
                    field = String::new();
                    proof {
                        assert(row.deep_view() =~= row_pre.push(a.field));
                    }
                } else if c == '\n' || c == '\r' {
                    if row.len() > 0 {
                        row.push(field);
                        field = String::new();
                        proof {
                            assert(row.deep_view() =~= row_pre.push(a.field));
                        }
                        let ghost row_full = row.deep_view();
                        rows.push(row);
                        row = Vec::new();
                        proof {
                            assert(rows.deep_view() =~= rows_pre.push(row_full));
                        }
                    }
                } else {
                    let piece = s.substring_char(i, i + 1);
                    field.append(piece);
                    st = ParseState::Unquoted;
                    proof {
                        assert(piece@ =~= seq![c]);
                        assert(field@ =~= a.field.push(c));
                    }
                }
            },
            ParseState::Unquoted => {
                if c == ',' {
                    row.push(field);
                    field = String::new();
                    st = ParseState::FieldStart;
                    proof {
                        assert(row.deep_view() =~= row_pre.push(a.field));
                    }
                } else if c == '\n' || c == '\r' {
                    row.push(field);
                    field = String::new();
                    st = ParseState::FieldStart;
                    proof {
                        assert(row.deep_view() =~= row_pre.push(a.field));
                    }
                    let ghost row_full = row.deep_view();
                    rows.push(row);
                    row = Vec::new();
                    proof {
                        assert(rows.deep_view() =~= rows_pre.push(row_full));
                    }
                } else {
                    let piece = s.substring_char(i, i + 1);
                    field.append(piece);
                    proof {
                        assert(piece@ =~= seq![c]);
                        assert(field@ =~= a.field.push(c));
                    }
                }
            },
            ParseState::Quoted => {
                if c == '"' {
                    st = ParseState::QuoteSeen;
                } else {
                    let piece = s.substring_char(i, i + 1);
                    field.append(piece);
                    proof {
                        assert(piece@ =~= seq![c]);
                        assert(field@ =~= a.field.push(c));
                    }
                }
            },
            ParseState::QuoteSeen => {
                if c == '"' {
                    field.append("\"");
                    st = ParseState::Quoted;
                    proof {
                        reveal_strlit("\"");
                        assert("\""@ =~= seq!['"']);
                        assert(field@ =~= a.field.push('"'));
                    }
                } else if c == ',' {
                    row.push(field);
                    field = String::new();
                    st = ParseState::FieldStart;
                    proof {
                        assert(row.deep_view() =~= row_pre.push(a.field));
                    }
                } else if c == '\n' || c == '\r' {
                    row.push(field);
                    field = String::new();
                    st = ParseState::FieldStart;
                    proof {
                        assert(row.deep_view() =~= row_pre.push(a.field));
                    }
                    let ghost row_full = row.deep_view();
                    rows.push(row);
                    row = Vec::new();
                    proof {
                        assert(rows.deep_view() =~= rows_pre.push(row_full));
                    }
                } else {
                    let piece = s.substring_char(i, i + 1);
                    field.append(piece);
                    st = ParseState::Unquoted;
                    proof {
                        assert(piece@ =~= seq![c]);
                        assert(field@ =~= a.field.push(c));
                    }
                }
            },
        }
        i = i + 1;
    }
    proof {
        assert(s@.take(n as int) =~= s@);
    }
    if !(row.len() == 0 && field.as_str().is_empty() && st == ParseState::FieldStart) {
        let ghost row_pre = row.deep_view();
        let ghost rows_pre = rows.deep_view();
        row.push(field);
        proof {
            assert(row.deep_view() =~= row_pre.push(parse_run(s@).field));
        }
        let ghost row_full = row.deep_view();
        rows.push(row);
        proof {
            assert(rows.deep_view() =~= rows_pre.push(row_full));
        }
    }
    rows
}

/// Whether a field must be quoted on output.
pub open spec fn needs_quote(f: Seq<char>) -> bool {
    f.contains(',') || f.contains('"') || f.contains('\n') || f.contains('\r')
}

/// The field with each quote doubled.
pub open spec fn escape_quotes(f: Seq<char>) -> Seq<char>
    decreases f.len(),
{
    if f.len() == 0 {
        Seq::empty()
    } else {
        escape_quotes(f.drop_last()) + (if f.last() == '"' {
            seq!['"', '"']
        } else {
            seq![f.last()]
        })
    }
}

/// The serialized form of one field: quoted and escaped when it embeds a
/// comma, a quote or a line break, verbatim otherwise.
pub open spec fn encode_field_spec(f: Seq<char>) -> Seq<char> {
    if needs_quote(f) {
        seq!['"'] + escape_quotes(f) + seq!['"']
    } else {
        f
    }
}

/// The serialized fields joined by commas.
pub open spec fn join_fields(fs: Seq<Seq<char>>) -> Seq<char>
    decreases fs.len(),
{
    if fs.len() == 0 {
        Seq::empty()
    } else if fs.len() == 1 {
        encode_field_spec(fs[0])
    } else {
        join_fields(fs.drop_last()) + seq![','] + encode_field_spec(fs.last())
    }
}

/// The serialized form of one row: its fields joined by commas, closed by
/// a line break.
pub open spec fn encode_row_spec(fs: Seq<Seq<char>>) -> Seq<char> {
    join_fields(fs) + seq!['\n']
}

fn field_needs_quote(f: &str) -> (b: bool)
    ensures
        b == needs_quote(f@),
{
    contains_char(f, ',') || contains_char(f, '"') || contains_char(f, '\n') || contains_char(
        f,
        '\r',
    )
}

/// Serializes one field.
pub fn encode_field(f: &str) -> (r: String)
    ensures
        r@ == encode_field_spec(f@),
{
    if !field_needs_quote(f) {
        return String::from_str(f);
    }
    let n = f.unicode_len();
    let mut r = String::from_str("\"");
    proof {
        reveal_strlit("\"");
        assert(f@.take(0) =~= Seq::<char>::empty());
        assert(r@ =~= seq!['"'] + escape_quotes(f@.take(0)));
    }
    let mut i: usize = 0;
    while i < n
        invariant
            0 <= i <= n,
            n == f@.len(),
            r@ == seq!['"'] + escape_quotes(f@.take(i as int)),
        decreases n - i,
    {
        let c = f.get_char(i);
        proof {
            assert(f@.take(i + 1).drop_last() =~= f@.take(i as int));
            assert(f@.take(i + 1).last() == f@[i as int]);
        }
        if c == '"' {
            r.append("\"\"");
            proof {
                reveal_strlit("\"\"");
                assert("\"\""@ =~= seq!['"', '"']);
            }
        } else {
            let piece = f.substring_char(i, i + 1);
            r.append(piece);
            proof {
                assert(piece@ =~= seq![c]);
            }
        }
        i = i + 1;
    }
    r.append("\"");
    proof {
        reveal_strlit("\"");
        assert(f@.take(n as int) =~= f@);
        assert(r@ =~= encode_field_spec(f@));
    }
    r
}

/// Serializes one row of raw fields.
pub fn encode_row(fields: &Vec<String>) -> (r: String)
    ensures
        r@ == encode_row_spec(fields.deep_view()),
{
    let ghost fs = fields.deep_view();
    let mut r = String::new();
    let mut i: usize = 0;
    while i < fields.len()
        invariant
            0 <= i <= fields@.len(),
            fs == fields.deep_view(),
            fs.len() == fields@.len(),
            r@ == join_fields(fs.take(i as int)),
        decreases fields@.len() - i,
    {
        proof {
            assert(fs.take(i + 1).drop_last() =~= fs.take(i as int));
            assert(fs.take(i + 1).last() == fs[i as int]);
            assert(fs[i as int] == fields@[i as int]@);
        }
        if i > 0 {
            r.append(",");
            proof {
                reveal_strlit(",");
                assert(","@ =~= seq![',']);
            }
        }
        let piece = encode_field(fields[i].as_str());
        r.append(piece.as_str());
        proof {
            if i == 0 {
                assert(r@ =~= join_fields(fs.take(1)));
            }
        }
        i = i + 1;
    }
    r.append("\n");
    proof {
        reveal_strlit("\n");
        assert("\n"@ =~= seq!['\n']);
        assert(fs.take(fs.len() as int) =~= fs);
    }
    r
}

/// The eleven output columns of a record, in their positional order.
pub open spec fn record_fields(r: RecordView) -> Seq<Seq<char>> {
    seq![
        r.id,
        r.email,
        r.first_name,
        r.last_name,
        r.address1,
        r.address2,
        r.city,
        r.region,
        r.postal_code,
        r.country,
        r.phone,
    ]
}

/// The output line for one record.
pub open spec fn encode_record_spec(r: RecordView) -> Seq<char> {
    encode_row_spec(record_fields(r))
}

/// The record's eleven output fields, in their positional order.
pub fn record_to_fields(rec: &Record) -> (v: Vec<String>)
    ensures
        v.deep_view() == record_fields(rec@),
{
    let mut v: Vec<String> = Vec::new();
    v.push(rec.id.clone());
    v.push(rec.email.clone());
    v.push(rec.first_name.clone());
    v.push(rec.last_name.clone());
    v.push(rec.address1.clone());
    v.push(rec.address2.clone());
    v.push(rec.city.clone());
    v.push(rec.region.clone());
    v.push(rec.postal_code.clone());
    v.push(rec.country.clone());
    v.push(rec.phone.clone());
    proof {
        assert(v.deep_view() =~= record_fields(rec@));
    }
    v
}

/// Serializes one record as one output line.
pub fn encode_record(rec: &Record) -> (line: String)
    ensures
        line@ == encode_record_spec(rec@),
{
    let fields = record_to_fields(rec);
    encode_row(&fields)
}

/// The serialized form of a whole group: its records' lines, in order.
pub open spec fn encode_records_spec(rs: Seq<RecordView>) -> Seq<char>
    decreases rs.len(),
{
    if rs.len() == 0 {
        Seq::empty()
    } else {
        encode_records_spec(rs.drop_last()) + encode_record_spec(rs.last())
    }
}

/// Serializes a sequence of records, one line each, in order.
pub fn encode_records(recs: &Vec<Record>) -> (out: String)
    ensures
        out@ == encode_records_spec(recs.deep_view()),
{
    let ghost rs = recs.deep_view();
    let mut out = String::new();
    let mut i: usize = 0;
    proof {
        assert(rs.take(0) =~= Seq::<RecordView>::empty());
    }
    while i < recs.len()
        invariant
            0 <= i <= recs@.len(),
            rs == recs.deep_view(),
            rs.len() == recs@.len(),
            out@ == encode_records_spec(rs.take(i as int)),
        decreases recs@.len() - i,
    {
        proof {
            assert(rs.take(i + 1).drop_last() =~= rs.take(i as int));
            assert(rs.take(i + 1).last() == rs[i as int]);
            assert(rs[i as int] == recs@[i as int]@);
        }
        let line = encode_record(&recs[i]);
        out.append(line.as_str());
        i = i + 1;
    }
    proof {
        assert(rs.take(rs.len() as int) =~= rs);
    }
    out
}

} // verus!
