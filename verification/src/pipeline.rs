//! The whole run over one input text: parse, decode, group, and
//! serialize one output file per group.

use vstd::prelude::*;
use vstd::string::*;
use crate::csvfmt::{encode_records, encode_records_spec, parse_rows, parse_spec};
use crate::grouping::{group_records, group_spec, Group, GroupView};
use crate::record::{all_rows_ok, decode_all, pull_records, row_ok, ReadError};
use crate::translator::Translator;

verus! {

/// One output file: its name and its full contents.
#[derive(Debug)]
pub struct OutputFile {
    pub name: String,
    pub contents: String,
}

/// The mathematical value of an OutputFile.
pub struct OutputFileView {
    pub name: Seq<char>,
    pub contents: Seq<char>,
}

impl View for OutputFile {
    type V = OutputFileView;

    open spec fn view(&self) -> OutputFileView {
        OutputFileView { name: self.name@, contents: self.contents@ }
    }
}

impl DeepView for OutputFile {
    type V = OutputFileView;

    open spec fn deep_view(&self) -> OutputFileView {
        self.view()
    }
}

/// The name of a group's output file.
pub open spec fn output_name_spec(key: Seq<char>) -> Seq<char> {
    "apology."@ + key + ".csv"@
}

/// Builds the output file name for a group key.
pub fn output_name(key: &str) -> (r: String)
    ensures
        r@ == output_name_spec(key@),
{
    let mut r = String::from_str("apology.");
    r.append(key);
    r.append(".csv");
    r
}

/// The output file a group serializes to.
pub open spec fn output_of(g: GroupView) -> OutputFileView {
    OutputFileView { name: output_name_spec(g.key), contents: encode_records_spec(g.records) }
}

/// The output files of a whole run over the given input text, assuming
/// every row decodes: one file per group, in group order.
pub open spec fn outputs_spec(input: Seq<char>) -> Seq<OutputFileView> {
    group_spec(decode_all(parse_spec(input))).map_values(|g: GroupView| output_of(g))
}

/// Runs the whole pipeline over one input text: parses it into rows,
/// decodes every row, partitions the records by key, and serializes one
/// output file per group. The run fails on the first row with too few
/// fields, reporting its line number, and then produces no output at
/// all.
pub fn process(translator: &Translator, input: &str) -> (r: Result<Vec<OutputFile>, ReadError>)
    requires
        input@.len() + 3 <= usize::MAX,
    ensures
        match r {
            Ok(outs) => all_rows_ok(parse_spec(input@)) && outs.deep_view() == outputs_spec(
                input@,
            ),
            Err(e) => {
                &&& !all_rows_ok(parse_spec(input@))
                &&& 2 <= e.line
                &&& e.line - 2 < parse_spec(input@).len()
                &&& !row_ok(parse_spec(input@)[e.line - 2])
                &&& e.fields_found == parse_spec(input@)[e.line - 2].len()
                &&& forall|j: int|
                    0 <= j < e.line - 2 ==> row_ok(#[trigger] parse_spec(input@)[j])
            },
        },
{
    let rows = parse_rows(input);
    let records = match pull_records(translator, &rows) {
        Ok(recs) => recs,
        Err(e) => {
            return Err(e);
        },
    };
    let groups = group_records(records);
    let ghost gs = groups.deep_view();
    let mut outs: Vec<OutputFile> = Vec::new();
    let mut i: usize = 0;
    while i < groups.len()
        invariant
            0 <= i <= groups@.len(),
            gs == groups.deep_view(),
            gs.len() == groups@.len(),
            outs.deep_view().len() == i,
            forall|j: int|
                0 <= j < i ==> #[trigger] outs.deep_view()[j] == output_of(gs[j]),
        decreases groups@.len() - i,
    {
        proof {
            assert(gs[i as int] == groups@[i as int]@);
        }
        let name = output_name(groups[i].key.as_str());
        let contents = encode_records(&groups[i].records);
        let ghost pre = outs.deep_view();
        outs.push(OutputFile { name, contents });
        proof {
            assert(outs.deep_view() =~= pre.push(
                OutputFileView {
                    name: output_name_spec(gs[i as int].key),
                    contents: encode_records_spec(gs[i as int].records),
                },
            ));
        }
        i = i + 1;
    }
    proof {
        assert(outs.deep_view() =~= outputs_spec(input@));
    }
    Ok(outs)
}

} // verus!
