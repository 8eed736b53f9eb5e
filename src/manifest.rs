use vstd::prelude::*;
use crate::converter::LJSpeechError;

verus! {

#[verifier::external_type_specification]
#[verifier::external_body]
pub struct ExCsvError(csv::Error);

/// The rows of a tab-separated text, each as its fields, in order; none where
/// the text is not valid UTF-8 or its rows differ in their number of fields.
pub uninterp spec fn tsv_read(b: Seq<u8>) -> Option<Seq<Seq<Seq<char>>>>;

/// Relies on csv's `ReaderBuilder` with a tab delimiter, no header row, and
/// `records`: every row comes back in order, or the read fails as a whole.
#[verifier::external_body]
fn read_tsv_rows(b: &[u8]) -> (r: Result<Vec<Vec<String>>, csv::Error>)
    ensures
        r is Ok <==> tsv_read(b@) is Some,
        r is Ok ==> r->Ok_0.deep_view() == tsv_read(b@)->Some_0,
{
    csv::ReaderBuilder::new().delimiter(b'\t').has_headers(false).from_reader(b).records().map(
        |rec| rec.map(|rec| rec.iter().map(|f| f.to_string()).collect()),
    ).collect()
}

/// One row of a manifest: a clip's path relative to `clips/`, and its transcript.
#[derive(Clone, Debug)]
pub struct ManifestRecord {
    pub path: String,
    pub transcript: String,
}

impl ManifestRecord {
    pub open spec fn view(&self) -> (Seq<char>, Seq<char>) {
        (self.path@, self.transcript@)
    }
}

/// The records of `rows`: the second field of each is the clip, the third its transcript.
pub open spec fn records_of(rows: Seq<Seq<Seq<char>>>) -> Seq<(Seq<char>, Seq<char>)> {
    rows.map_values(|row: Seq<Seq<char>>| (row[1], row[2]))
}

/// Every row has a clip and a transcript.
pub open spec fn rows_complete(rows: Seq<Seq<Seq<char>>>) -> bool {
    forall|i: int| 0 <= i < rows.len() ==> #[trigger] rows[i].len() >= 3
}

/// The rows that hold records: all of them, or all but the first where the
/// first is a header.
pub open spec fn data_rows(rows: Seq<Seq<Seq<char>>>, skip_header: bool) -> Seq<Seq<Seq<char>>> {
    if skip_header && rows.len() > 0 { rows.drop_first() } else { rows }
}

/// Takes the records out of the rows of a manifest, after the header row
/// where `skip_header` is set; a row with fewer than three fields makes the
/// whole manifest malformed.
pub fn manifest_records(rows: &Vec<Vec<String>>, skip_header: bool) -> (r: Result<Vec<ManifestRecord>, LJSpeechError>)
    ensures
        r is Ok <==> rows_complete(data_rows(rows.deep_view(), skip_header)),
        r is Ok ==> r->Ok_0@.map_values(|x: ManifestRecord| x.view())
            == records_of(data_rows(rows.deep_view(), skip_header)),
        r is Err ==> r->Err_0 is FormatError,
{
    let ghost data = data_rows(rows.deep_view(), skip_header);
    let start: usize = if skip_header && rows.len() > 0 { 1 } else { 0 };
    let mut recs: Vec<ManifestRecord> = Vec::new();
    let mut i: usize = start;
    while i < rows.len()
        invariant
            start <= i <= rows.len(),
            data == data_rows(rows.deep_view(), skip_header),
            data.len() == rows.len() - start,
            forall|k: int| 0 <= k < data.len() ==> #[trigger] data[k] == rows.deep_view()[k + start],
            recs.len() == i - start,
            forall|k: int| 0 <= k < i - start ==> #[trigger] data[k].len() >= 3,
            forall|k: int| 0 <= k < i - start ==> #[trigger] recs@[k].view() == (data[k][1], data[k][2]),
        decreases rows.len() - i,
    {
        let row = &rows[i];
        assert(row.deep_view() == data[i - start]);
        if row.len() < 3 {
            let ghost j: int = i - start;
            assert(data[j].len() < 3);
            assert(!rows_complete(data));
            return Err(LJSpeechError::FormatError(String::from_str("a manifest row lacks a clip or a transcript")));
        }
        recs.push(ManifestRecord { path: row[1].clone(), transcript: row[2].clone() });
        i = i + 1;
    }
    assert(recs@.map_values(|x: ManifestRecord| x.view()) =~= records_of(data));
    Ok(recs)
}

/// Reads the records of a tab-separated manifest, after its header row where
/// `skip_header` is set.
pub fn parse_manifest(b: &[u8], skip_header: bool) -> (r: Result<Vec<ManifestRecord>, LJSpeechError>)
    ensures
        r is Ok <==> tsv_read(b@) is Some && rows_complete(data_rows(tsv_read(b@)->Some_0, skip_header)),
        r is Ok ==> r->Ok_0@.map_values(|x: ManifestRecord| x.view())
            == records_of(data_rows(tsv_read(b@)->Some_0, skip_header)),
        r is Err ==> r->Err_0 is FormatError,
{
    match read_tsv_rows(b) {
        Ok(rows) => manifest_records(&rows, skip_header),
        Err(_) => Err(LJSpeechError::FormatError(String::from_str("the manifest is not well-formed tab-separated text"))),
    }
}

} // verus!
