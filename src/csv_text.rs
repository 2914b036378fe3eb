//! The exported rows as CSV bytes.
use vstd::prelude::*;
use crate::engine::{OutputRow, OutputView};
use crate::record::fragments;
use crate::markup::ascii_of;
use vstd::utf8::{encode_utf8, is_ascii_chars, is_ascii_chars_encode_utf8};

verus! {

/// The quote byte.
pub open spec fn quote_byte() -> u8 {
    '"' as u8
}

/// A byte that forces its field into quotes: the delimiter, the quote, and
/// the two line-break bytes.
pub open spec fn is_csv_special(b: u8) -> bool {
    b == ',' as u8 || b == quote_byte() || b == '\r' as u8 || b == '\n' as u8
}

/// Whether a field must be quoted.
pub open spec fn needs_quotes(f: Seq<u8>) -> bool {
    exists|i: int| 0 <= i < f.len() && is_csv_special(#[trigger] f[i])
}

/// `f` with each quote byte doubled.
pub open spec fn double_quotes(f: Seq<u8>) -> Seq<u8>
    decreases f.len(),
{
    if f.len() == 0 {
        Seq::empty()
    } else {
        double_quotes(f.drop_last()) + if f.last() == quote_byte() {
            seq![quote_byte(), quote_byte()]
        } else {
            seq![f.last()]
        }
    }
}

/// One field as written: in quotes, with inner quotes doubled, where it
/// holds a special byte; as it is otherwise.
pub open spec fn csv_field(f: Seq<u8>) -> Seq<u8> {
    if needs_quotes(f) {
        seq![quote_byte()] + double_quotes(f) + seq![quote_byte()]
    } else {
        f
    }
}

/// The UTF-8 fields of a record written one after another, separated by
/// commas.
pub open spec fn csv_fields(fields: Seq<Seq<char>>) -> Seq<u8>
    decreases fields.len(),
{
    if fields.len() == 0 {
        Seq::empty()
    } else if fields.len() == 1 {
        csv_field(encode_utf8(fields[0]))
    } else {
        csv_fields(fields.drop_last()) + seq![',' as u8] + csv_field(encode_utf8(fields.last()))
    }
}

/// The bytes that the csv crate's default writer emits for one record: its
/// fields, or `""` where they come to no byte at all, then a line feed.
pub open spec fn csv_record_bytes(fields: Seq<Seq<char>>) -> Seq<u8> {
    let body = csv_fields(fields);
    (if body.len() == 0 {
        seq![quote_byte(), quote_byte()]
    } else {
        body
    }) + seq!['\n' as u8]
}

/// Relies on csv's `Writer::from_writer` over a `Vec<u8>`, with its default
/// settings, `Writer::write_record` and `Writer::into_inner`: the bytes of
/// one record (csv-core's `Writer::field`, `delimiter` and `terminator` with
/// the default `QuoteStyle::Necessary`, `,`, `"` and `\n`). A fresh writer into memory meets
/// no I/O error and no earlier record of another length, so it succeeds.
#[verifier::external_body]
fn encode_record(fields: &Vec<String>) -> (r: Option<Vec<u8>>)
    ensures
        r is Some,
        r matches Some(b) ==> b@ == csv_record_bytes(fragments(fields@)),
{
    let mut writer = csv::Writer::from_writer(Vec::new());
    writer.write_record(fields).ok()?;
    writer.into_inner().ok()
}

/// The header record.
pub open spec fn header_fields() -> Seq<Seq<char>> {
    seq!["title"@, "question"@, "answer"@]
}

/// The fields of an exported row.
pub open spec fn row_fields(r: OutputView) -> Seq<Seq<char>> {
    seq![r.title, r.question, r.answer]
}

/// The bytes of the records of `rows`, one after another.
pub open spec fn rows_bytes(rows: Seq<OutputView>) -> Seq<u8>
    decreases rows.len(),
{
    if rows.len() == 0 {
        Seq::empty()
    } else {
        rows_bytes(rows.drop_last()) + csv_record_bytes(row_fields(rows.last()))
    }
}

/// The CSV document: the header, then one record per row.
pub open spec fn csv_document(rows: Seq<OutputView>) -> Seq<u8> {
    csv_record_bytes(header_fields()) + rows_bytes(rows)
}

/// Encodes the header and `rows` as one CSV document.
pub fn encode_csv(rows: &Vec<OutputRow>) -> (r: Vec<u8>)
    ensures
        r@ == csv_document(rows@.map_values(|o: OutputRow| o@)),
{
    let ghost views = rows@.map_values(|o: OutputRow| o@);
    let header = vec![String::from_str("title"), String::from_str("question"), String::from_str("answer")];
    proof {
        assert(fragments(header@) =~= header_fields());
    }
    let mut out = encode_record(&header).unwrap();
    let mut i: usize = 0;
    while i < rows.len()
        invariant
            i <= rows@.len(),
            views == rows@.map_values(|o: OutputRow| o@),
            out@ == csv_record_bytes(header_fields()) + rows_bytes(views.take(i as int)),
        decreases rows@.len() - i,
    {
        let row = &rows[i];
        let fields = vec![row.title.clone(), row.question.clone(), row.answer.clone()];
        proof {
            assert(fragments(fields@) =~= row_fields(views[i as int]));
            assert(views.take(i as int + 1).drop_last() =~= views.take(i as int));
        }
        let mut b = encode_record(&fields).unwrap();
        out.append(&mut b);
        proof {
            assert(out@ =~= csv_record_bytes(header_fields()) + rows_bytes(views.take(i as int + 1)));
        }
        i = i + 1;
    }
    assert(views.take(rows@.len() as int) =~= views);
    out
}

/// The header record is the line `title,question,answer`.
pub proof fn lemma_header_bytes()
    ensures
        csv_record_bytes(header_fields()) == ascii_of("title,question,answer\n"@),
{
    reveal_strlit("title");
    reveal_strlit("question");
    reveal_strlit("answer");
    reveal_strlit("title,question,answer\n");
    let h = header_fields();
    assert(is_ascii_chars("title"@));
    assert(is_ascii_chars("question"@));
    assert(is_ascii_chars("answer"@));
    is_ascii_chars_encode_utf8("title"@);
    is_ascii_chars_encode_utf8("question"@);
    is_ascii_chars_encode_utf8("answer"@);
    assert(encode_utf8("title"@) =~= ascii_of("title"@));
    assert(encode_utf8("question"@) =~= ascii_of("question"@));
    assert(encode_utf8("answer"@) =~= ascii_of("answer"@));
    assert(!needs_quotes(ascii_of("title"@)));
    assert(!needs_quotes(ascii_of("question"@)));
    assert(!needs_quotes(ascii_of("answer"@)));
    assert(h.drop_last().drop_last() =~= seq!["title"@]);
    assert(h.drop_last() =~= seq!["title"@, "question"@]);
    let comma = seq![',' as u8];
    assert(csv_fields(h.drop_last().drop_last()) == ascii_of("title"@));
    assert(csv_fields(h.drop_last()) == ascii_of("title"@) + comma + ascii_of("question"@));
    let body = ascii_of("title"@) + comma + ascii_of("question"@) + comma + ascii_of("answer"@);
    assert(csv_fields(h) == body);
    assert(body + seq!['\n' as u8] =~= ascii_of("title,question,answer\n"@));
}

} // verus!
