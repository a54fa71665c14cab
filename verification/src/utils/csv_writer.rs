//! Delimited text, written by the `csv` crate into memory.

use vstd::prelude::*;

verus! {

/// A `csv::Writer` that writes into memory.
#[verifier::external_body]
pub struct CsvBuffer {
    writer: csv::Writer<Vec<u8>>,
}

/// `csv::Error`, handed on as it comes.
#[verifier::external_type_specification]
#[verifier::external_body]
pub struct ExCsvError(csv::Error);

/// The records that were written to the writer so far, each a list of
/// fields.
pub uninterp spec fn written_records(writer: CsvBuffer) -> Seq<Seq<Seq<char>>>;

/// The delimiter that the writer was made with.
pub uninterp spec fn writer_delimiter(writer: CsvBuffer) -> u8;

/// The text that the `csv` crate writes for the records with the delimiter:
/// one line per record, fields quoted where they need it. `None` where what
/// it writes is no text, as with a delimiter that is no character by itself.
pub uninterp spec fn csv_text(records: Seq<Seq<Seq<char>>>, delimiter: u8) -> Option<Seq<char>>;

/// The fields of a record, as texts.
pub open spec fn field_views(record: Seq<String>) -> Seq<Seq<char>> {
    record.map_values(|field: String| field@)
}

/// A writer into memory, made by `csv::WriterBuilder` with the delimiter
/// given and without a header line. Nothing is written yet.
#[verifier::external_body]
pub(crate) fn new_writer(delimiter: u8) -> (writer: CsvBuffer)
    ensures
        written_records(writer) == Seq::<Seq<Seq<char>>>::empty(),
        writer_delimiter(writer) == delimiter,
{
    CsvBuffer {
        writer: csv::WriterBuilder::new().delimiter(delimiter).has_headers(false).from_writer(
            Vec::new(),
        ),
    }
}

/// `csv::Writer::write_record`, for a record with as many fields as the
/// first one written, or for the first one: the writer refuses a record only
/// for its number of fields, or where what it writes to fails, which memory
/// does not. The record then follows those written before it.
#[verifier::external_body]
pub(crate) fn write_record(writer: &mut CsvBuffer, record: &Vec<String>) -> (written: Result<
    (),
    csv::Error,
>)
    requires
        written_records(*old(writer)).len() == 0 || written_records(*old(writer))[0].len()
            == record.len(),
    ensures
        written is Ok,
        written_records(*final(writer)) == written_records(*old(writer)).push(
            field_views(record@),
        ),
        writer_delimiter(*final(writer)) == writer_delimiter(*old(writer)),
{
    writer.writer.write_record(record)
}

/// The text of all that was written: `csv::Writer::into_inner` hands the
/// bytes over, `String::from_utf8` reads them. The contract names the text
/// and says that the call fails exactly where there is none.
#[verifier::external_body]
pub(crate) fn into_text(writer: CsvBuffer) -> (text: Result<String, csv::Error>)
    ensures
        match text {
            Ok(text) => csv_text(written_records(writer), writer_delimiter(writer)) == Some(text@),
            Err(_) => csv_text(written_records(writer), writer_delimiter(writer)) is None,
        },
{
    let bytes = writer.writer.into_inner().map_err(|error| csv::Error::from(error.into_error()))?;
    String::from_utf8(bytes).map_err(
        |error| csv::Error::from(std::io::Error::new(std::io::ErrorKind::InvalidData, error)),
    )
}

} // verus!
