use ::csv::{Reader, ReaderBuilder};
use vstd::prelude::*;

verus! {

/// A `csv::Reader` over a source of type `R`, positioned after the header row.
#[verifier::external_body]
#[verifier::reject_recursive_types(R)]
pub struct RecordReader<R> {
    inner: Reader<R>,
}

/// The field delimiter of every document: the byte of `;`.
pub const DELIMITER: u8 = 59;

/// The header row of a delimited text: its first record.
pub uninterp spec fn header_row(text: Seq<char>, delimiter: u8) -> Option<Seq<Seq<char>>>;

/// The records of a delimited text after its header row, in order, each as its
/// fields; `None` where one of them cannot be read (by default, one whose field
/// count differs from the header row's).
pub uninterp spec fn records_after_header(text: Seq<char>, delimiter: u8) -> Option<
    Seq<Seq<Seq<char>>>,
>;

/// The records that a reader has yet to yield, as `records_after_header` gives them.
pub uninterp spec fn pending_records(r: RecordReader<&[u8]>) -> Option<Seq<Seq<Seq<char>>>>;

/// The views of a list of strings.
pub open spec fn strings_view(v: Seq<String>) -> Seq<Seq<char>> {
    v.map_values(|s: String| s@)
}

/// The views of a list of records.
pub open spec fn records_view(records: Seq<Vec<String>>) -> Seq<Seq<Seq<char>>> {
    records.map_values(|r: Vec<String>| strings_view(r@))
}

/// Every record has one cell per header.
pub open spec fn same_arity(headers: Seq<Seq<char>>, records: Seq<Seq<Seq<char>>>) -> bool {
    forall|i: int| 0 <= i < records.len() ==> (#[trigger] records[i]).len() == headers.len()
}

/// Relies on `csv::ReaderBuilder` with the given delimiter, `from_reader` over the
/// text's bytes, and `Reader::headers`, which reads the first record. Over a byte
/// slice there is no I/O error, and fields split at an ASCII delimiter of UTF-8 text
/// stay UTF-8, so the header row is always read.
#[verifier::external_body]
fn open_reader<'a>(text: &'a str, delimiter: u8) -> (r: Result<(RecordReader<&'a [u8]>, Vec<String>), String>)
    requires
        delimiter < 128,
    ensures
        r is Ok,
        r matches Ok(p) ==> header_row(text@, delimiter) == Some(strings_view(p.1@)),
        r matches Ok(p) ==> pending_records(p.0) == records_after_header(text@, delimiter),
{
    let mut reader = ReaderBuilder::new().delimiter(delimiter).from_reader(text.as_bytes());
    let headers = reader.headers().map_err(|e| e.to_string())?.iter().map(|s| s.to_owned()).collect();
    Ok((RecordReader { inner: reader }, headers))
}

/// Relies on `Reader::records`: every record the reader has yet to yield, in order,
/// or the error of the first one that cannot be read.
#[verifier::external_body]
fn remaining_records(reader: RecordReader<&[u8]>) -> (r: Result<Vec<Vec<String>>, String>)
    ensures
        r is Ok == pending_records(reader) is Some,
        r matches Ok(v) ==> pending_records(reader) == Some(records_view(v@)),
{
    let mut inner = reader.inner;
    inner
        .records()
        .map(|rec| rec.map(|rec| rec.iter().map(|s| s.to_owned()).collect()).map_err(|e| e.to_string()))
        .collect()
}

/// A delimited document being read: its header names and a reader positioned at
/// its first record.
#[verifier::reject_recursive_types(T)]
pub struct Csv<T> {
    pub reader: RecordReader<T>,
    pub headers: Vec<String>,
}

/// Opens a `;`-delimited text, reading its header row. The reader then yields the
/// text's remaining records.
pub fn read_from_str<'a>(s: &'a str) -> (r: Result<Csv<&'a [u8]>, String>)
    ensures
        r is Ok,
        r matches Ok(c) ==> header_row(s@, DELIMITER) == Some(strings_view(c.headers@)),
        r matches Ok(c) ==> pending_records(c.reader) == records_after_header(s@, DELIMITER),
{
    match open_reader(s, DELIMITER) {
        Ok((reader, headers)) => Ok(Csv { reader, headers }),
        Err(e) => Err(e),
    }
}

impl<'a> Csv<&'a [u8]> {
    /// Reads the remaining records: an error where one cannot be read or where its
    /// field count differs from the header row's.
    pub fn records(self) -> (r: Result<Vec<Vec<String>>, String>)
        ensures
            r is Ok <==> (pending_records(self.reader) matches Some(recs) && same_arity(
                strings_view(self.headers@),
                recs,
            )),
            r matches Ok(v) ==> pending_records(self.reader) == Some(records_view(v@)),
    {
        let n = self.headers.len();
        let ghost hs = strings_view(self.headers@);
        let ghost pending = pending_records(self.reader);
        assert(hs.len() == n);
        match remaining_records(self.reader) {
            Ok(records) => {
                let ghost recs = records_view(records@);
                let mut i: usize = 0;
                while i < records.len()
                    invariant
                        i <= records@.len(),
                        hs.len() == n,
                        recs == records_view(records@),
                        pending == Some(recs),
                        pending == pending_records(self.reader),
                        hs == strings_view(self.headers@),
                        forall|j: int| 0 <= j < i ==> (#[trigger] records@[j])@.len() == n,
                    decreases records@.len() - i,
                {
                    if records[i].len() != n {
                        proof {
                            assert(pending == Some(recs));
                            assert(recs[i as int] == strings_view(records@[i as int]@));
                            assert(recs[i as int].len() != hs.len());
                            assert(!same_arity(hs, recs));
                        }
                        return Err("record and header row differ in length".to_string());
                    }
                    i = i + 1;
                }
                proof {
                    assert forall|j: int| 0 <= j < recs.len() implies (#[trigger] recs[j]).len() == hs.len() by {
                        assert(records@[j]@.len() == n);
                        assert(recs[j] == strings_view(records@[j]@));
                    }
                    assert(pending == Some(recs));
                }
                Ok(records)
            },
            Err(e) => Err(e),
        }
    }
}

} // verus!
