//! Which files hold reports, and the XML documents that a report file holds.
use vstd::prelude::*;

use crate::error::{error_text, AppError};
use crate::hexcode::{utf8_decode, utf8_error_text};
use crate::text::{concat2, ends_with, lowercase, seq_ends_with, string_of, to_lowercase, views};
use vstd::utf8::{decode_utf8, valid_utf8};

verus! {

/// What one batch of inserted reports did.
pub struct InsertSummary {
    pub imported: usize,
    pub duplicates: usize,
}

impl InsertSummary {
    /// Nothing inserted yet.
    pub fn new() -> (s: InsertSummary)
        ensures
            s.imported == 0,
            s.duplicates == 0,
    {
        InsertSummary { imported: 0, duplicates: 0 }
    }

    /// Counts one insertion: a report that changed no row was already stored.
    pub fn record(&mut self, affected_rows: usize)
        requires
            old(self).imported + old(self).duplicates < usize::MAX,
        ensures
            affected_rows == 0 ==> final(self).duplicates == old(self).duplicates + 1
                && final(self).imported == old(self).imported,
            affected_rows != 0 ==> final(self).imported == old(self).imported + 1
                && final(self).duplicates == old(self).duplicates,
    {
        if affected_rows == 0 {
            self.duplicates = self.duplicates + 1;
        } else {
            self.imported = self.imported + 1;
        }
    }
}

/// A file name that names a report: `.xml`, `.xml.gz`, `.gz` or `.zip`, in any case.
pub open spec fn report_filename_supported(name: Seq<char>) -> bool {
    let l = lowercase(name);
    seq_ends_with(l, ".xml"@) || seq_ends_with(l, ".xml.gz"@) || seq_ends_with(l, ".gz"@)
        || seq_ends_with(l, ".zip"@)
}

/// Whether `name` names a report file; see `report_filename_supported`.
pub fn is_supported_report_filename(name: &str) -> (b: bool)
    ensures
        b == report_filename_supported(name@),
{
    let l = to_lowercase(name);
    ends_with(l.as_str(), ".xml") || ends_with(l.as_str(), ".xml.gz") || ends_with(
        l.as_str(),
        ".gz",
    ) || ends_with(l.as_str(), ".zip")
}

// ---------------------------------------------------------------------------
// Outside calls
// ---------------------------------------------------------------------------

/// Names what decompressing gzip data gives: the bytes, or the message of the
/// I/O error that ended the reading.
pub uninterp spec fn gunzipped(data: Seq<u8>) -> Result<Seq<u8>, Seq<char>>;

/// Names what opening a ZIP archive gives: its number of entries, or the
/// message of the reader's error.
pub uninterp spec fn zip_opened(archive: Seq<u8>) -> Result<nat, Seq<char>>;

/// Names what looking up entry `index` of a ZIP archive gives: whether it is a
/// directory and its name, or the message of the reader's error.
pub uninterp spec fn zip_entry_at(archive: Seq<u8>, index: nat) -> Result<(bool, Seq<char>), Seq<char>>;

/// Names what reading entry `index` of a ZIP archive gives: its data, or the
/// message of the error (of the reader, or of the I/O as `io`).
pub uninterp spec fn zip_entry_data(archive: Seq<u8>, index: nat) -> Result<Seq<u8>, (bool, Seq<char>)>;

/// Reads a gzip stream to its end with `flate2::read::GzDecoder`.
#[verifier::external_body]
fn gunzip(data: &[u8]) -> (r: Result<Vec<u8>, String>)
    ensures
        match r {
            Ok(v) => gunzipped(data@) == Ok::<Seq<u8>, Seq<char>>(v@),
            Err(m) => gunzipped(data@) == Err::<Seq<u8>, Seq<char>>(m@),
        },
{
    let mut decoder = flate2::read::GzDecoder::new(data);
    let mut out = Vec::new();
    match std::io::Read::read_to_end(&mut decoder, &mut out) {
        Ok(_) => Ok(out),
        Err(e) => Err(e.to_string()),
    }
}

/// Opens a ZIP archive with `zip::ZipArchive::new` and counts its entries.
#[verifier::external_body]
fn zip_open(archive: &[u8]) -> (r: Result<usize, String>)
    ensures
        match r {
            Ok(n) => zip_opened(archive@) == Ok::<nat, Seq<char>>(n as nat),
            Err(m) => zip_opened(archive@) == Err::<nat, Seq<char>>(m@),
        },
{
    match zip::ZipArchive::new(std::io::Cursor::new(archive)) {
        Ok(a) => Ok(a.len()),
        Err(e) => Err(e.to_string()),
    }
}

/// Looks up an entry of a ZIP archive with `ZipArchive::by_index`: whether it
/// is a directory, and its name.
#[verifier::external_body]
fn zip_entry(archive: &[u8], index: usize) -> (r: Result<(bool, String), String>)
    ensures
        match r {
            Ok((d, n)) => zip_entry_at(archive@, index as nat) == Ok::<(bool, Seq<char>), Seq<char>>((d, n@)),
            Err(m) => zip_entry_at(archive@, index as nat) == Err::<(bool, Seq<char>), Seq<char>>(m@),
        },
{
    let mut a = match zip::ZipArchive::new(std::io::Cursor::new(archive)) {
        Ok(a) => a,
        Err(e) => return Err(e.to_string()),
    };
    let entry = match a.by_index(index) {
        Ok(f) => match f.name() {
            Ok(n) => Ok((f.is_dir(), n.to_string())),
            Err(e) => Err(e.to_string()),
        },
        Err(e) => Err(e.to_string()),
    };
    entry
}

/// Reads an entry of a ZIP archive to its end; an error of the reader comes
/// with `false`, an I/O error with `true`.
#[verifier::external_body]
fn zip_entry_bytes(archive: &[u8], index: usize) -> (r: Result<Vec<u8>, (bool, String)>)
    ensures
        match r {
            Ok(v) => zip_entry_data(archive@, index as nat) == Ok::<Seq<u8>, (bool, Seq<char>)>(v@),
            Err((io, m)) => zip_entry_data(archive@, index as nat) == Err::<Seq<u8>, (bool, Seq<char>)>((io, m@)),
        },
{
    let mut a = match zip::ZipArchive::new(std::io::Cursor::new(archive)) {
        Ok(a) => a,
        Err(e) => return Err((false, e.to_string())),
    };
    let mut file = match a.by_index(index) {
        Ok(f) => f,
        Err(e) => return Err((false, e.to_string())),
    };
    let mut out = Vec::new();
    match std::io::Read::read_to_end(&mut file, &mut out) {
        Ok(_) => Ok(out),
        Err(e) => Err((true, e.to_string())),
    }
}

// ---------------------------------------------------------------------------
// Report documents
// ---------------------------------------------------------------------------

/// The XML documents of a payload, in order, and the text of the error that
/// stopped the reading, if one did.
pub type Documents = (Seq<Seq<char>>, Option<Seq<char>>);

/// A single XML document: the text of valid UTF-8, else an invalid report.
pub open spec fn xml_documents(data: Seq<u8>) -> Documents {
    if valid_utf8(data) {
        (seq![decode_utf8(data)], None)
    } else {
        (seq![], Some("invalid report: "@ + ("report is not valid UTF-8: "@ + utf8_error_text(data))))
    }
}

/// A gzip-compressed document when the name ends with `.gz`, else an XML document.
pub open spec fn plain_documents(name: Seq<char>, data: Seq<u8>) -> Documents {
    if seq_ends_with(lowercase(name), ".gz"@) {
        match gunzipped(data) {
            Ok(xml) => xml_documents(xml),
            Err(m) => (seq![], Some("I/O error: "@ + m)),
        }
    } else {
        xml_documents(data)
    }
}

/// An entry that a ZIP archive's reading takes: a file whose name ends with
/// `.xml` or `.xml.gz`, in any case.
pub open spec fn zip_entry_taken(is_dir: bool, name: Seq<char>) -> bool {
    !is_dir && (seq_ends_with(lowercase(name), ".xml"@) || seq_ends_with(
        lowercase(name),
        ".xml.gz"@,
    ))
}

/// The documents of entries `index..count` of an archive.
pub open spec fn zip_documents(archive: Seq<u8>, index: nat, count: nat) -> Documents
    decreases count - index,
{
    if index >= count {
        (seq![], None)
    } else {
        match zip_entry_at(archive, index) {
            Err(m) => (seq![], Some("ZIP error: "@ + m)),
            Ok((is_dir, name)) => if !zip_entry_taken(is_dir, name) {
                zip_documents(archive, index + 1, count)
            } else {
                match zip_entry_data(archive, index) {
                    Err((io, m)) => (seq![], Some(
                        if io {
                            "I/O error: "@ + m
                        } else {
                            "ZIP error: "@ + m
                        },
                    )),
                    Ok(data) => {
                        let here = plain_documents(name, data);
                        if here.1 is Some {
                            here
                        } else {
                            let rest = zip_documents(archive, index + 1, count);
                            (here.0 + rest.0, rest.1)
                        }
                    },
                }
            },
        }
    }
}

/// The documents of a report file: the entries of a `.zip`, the content of a
/// `.gz`, or the file itself.
pub open spec fn payload_spec(filename: Seq<char>, bytes: Seq<u8>) -> Documents {
    if seq_ends_with(lowercase(filename), ".zip"@) {
        match zip_opened(bytes) {
            Err(m) => (seq![], Some("ZIP error: "@ + m)),
            Ok(n) => zip_documents(bytes, 0, n),
        }
    } else {
        plain_documents(filename, bytes)
    }
}

/// The view of the error of a reading.
pub open spec fn stop_text(e: Option<AppError>) -> Option<Seq<char>> {
    match e {
        Some(x) => error_text(x),
        None => None,
    }
}

fn xml_document(data: &[u8]) -> (r: Result<String, AppError>)
    ensures
        match r {
            Ok(s) => xml_documents(data@) == (seq![s@], None::<Seq<char>>),
            Err(e) => xml_documents(data@) == (Seq::<Seq<char>>::empty(), error_text(e)) && error_text(e) is Some,
        },
{
    match utf8_decode(data) {
        Ok(s) => {
            proof {
                vstd::utf8::encode_utf8_decode_utf8(s@);
            }
            Ok(s)
        },
        Err(m) => {
            let msg = concat2("report is not valid UTF-8: ", m.as_str());
            Err(AppError::InvalidReport(msg))
        },
    }
}

fn plain_document(name: &str, data: &[u8]) -> (r: Result<String, AppError>)
    ensures
        match r {
            Ok(s) => plain_documents(name@, data@) == (seq![s@], None::<Seq<char>>),
            Err(e) => plain_documents(name@, data@) == (Seq::<Seq<char>>::empty(), error_text(e)) && error_text(e) is Some,
        },
{
    let lower = to_lowercase(name);
    if ends_with(lower.as_str(), ".gz") {
        match gunzip(data) {
            Ok(xml) => xml_document(xml.as_slice()),
            Err(m) => Err(AppError::Io(m)),
        }
    } else {
        xml_document(data)
    }
}

/// The XML documents that a report file holds, in order, and the error that
/// stopped the reading, if one did. Documents before the error are kept, so
/// that reading them can fail first, as it would have in order.
pub fn payload_documents(filename: &str, bytes: &[u8]) -> (r: (Vec<String>, Option<AppError>))
    ensures
        (views(r.0@), stop_text(r.1)) == payload_spec(filename@, bytes@),
        r.1 matches Some(e) ==> error_text(e) is Some,
{
    let lower = to_lowercase(filename);
    if !ends_with(lower.as_str(), ".zip") {
        return match plain_document(filename, bytes) {
            Ok(s) => {
                let mut docs: Vec<String> = Vec::new();
                docs.push(s);
                assert(views(docs@) =~= seq![docs@[0]@]);
                (docs, None)
            },
            Err(e) => {
                let docs: Vec<String> = Vec::new();
                assert(views(docs@) =~= Seq::<Seq<char>>::empty());
                (docs, Some(e))
            },
        };
    }
    let count = match zip_open(bytes) {
        Ok(n) => n,
        Err(m) => {
            let docs: Vec<String> = Vec::new();
            assert(views(docs@) =~= Seq::<Seq<char>>::empty());
            return (docs, Some(AppError::Zip(m)));
        },
    };
    let mut docs: Vec<String> = Vec::new();
    let mut index: usize = 0;
    assert(views(docs@) + zip_documents(bytes@, 0, count as nat).0 =~= zip_documents(bytes@, 0, count as nat).0);
    while index < count
        invariant
            index <= count,
            payload_spec(filename@, bytes@) == zip_documents(bytes@, 0, count as nat),
            zip_documents(bytes@, 0, count as nat) == (
                views(docs@) + zip_documents(bytes@, index as nat, count as nat).0,
                zip_documents(bytes@, index as nat, count as nat).1,
            ),
        decreases count - index,
    {
        let ghost before = views(docs@);
        let (is_dir, name) = match zip_entry(bytes, index) {
            Ok(entry) => entry,
            Err(m) => {
                assert(before + Seq::<Seq<char>>::empty() =~= before);
                return (docs, Some(AppError::Zip(m)));
            },
        };
        let lower_name = to_lowercase(name.as_str());
        if is_dir || !(ends_with(lower_name.as_str(), ".xml") || ends_with(lower_name.as_str(), ".xml.gz")) {
            index = index + 1;
            continue;
        }
        let data = match zip_entry_bytes(bytes, index) {
            Ok(d) => d,
            Err((io, m)) => {
                assert(before + Seq::<Seq<char>>::empty() =~= before);
                if io {
                    return (docs, Some(AppError::Io(m)));
                } else {
                    return (docs, Some(AppError::Zip(m)));
                }
            },
        };
        match plain_document(name.as_str(), data.as_slice()) {
            Ok(s) => {
                docs.push(s);
                let ghost rest = zip_documents(bytes@, (index + 1) as nat, count as nat);
                assert(views(docs@) =~= before.push(docs@.last()@));
                assert(before + (seq![docs@.last()@] + rest.0) =~= views(docs@) + rest.0);
            },
            Err(e) => {
                assert(before + Seq::<Seq<char>>::empty() =~= before);
                return (docs, Some(e));
            },
        }
        index = index + 1;
    }
    assert(views(docs@) + Seq::<Seq<char>>::empty() =~= views(docs@));
    (docs, None)
}

/// A name ending with `.xml` does not end with `.gz`.
proof fn lemma_xml_not_gz(l: Seq<char>)
    requires
        seq_ends_with(l, ".xml"@),
    ensures
        !seq_ends_with(l, ".gz"@),
{
    reveal_strlit(".xml");
    reveal_strlit(".gz");
    let t = l.subrange(l.len() - 4, l.len() as int);
    assert(t[3] == 'l');
    assert(l[l.len() - 1] == t[3]);
    if seq_ends_with(l, ".gz"@) {
        let g = l.subrange(l.len() - 3, l.len() as int);
        assert(g[2] == 'z');
        assert(l[l.len() - 1] == g[2]);
    }
}

/// Every file entry of a ZIP archive whose lower-cased name ends with `.xml`
/// or `.xml.gz` is read; directories are not.
pub proof fn lemma_zip_takes_report_entries(name: Seq<char>)
    ensures
        seq_ends_with(lowercase(name), ".xml"@) ==> zip_entry_taken(false, name),
        seq_ends_with(lowercase(name), ".xml.gz"@) ==> zip_entry_taken(false, name),
        !zip_entry_taken(true, name),
{
}

/// A file entry of an archive whose lower-cased name ends with `.xml` and
/// whose bytes are valid UTF-8 gives its text as the first document read from
/// that entry on.
pub proof fn lemma_zip_xml_entry_read(archive: Seq<u8>, index: nat, count: nat, name: Seq<char>, data: Seq<u8>)
    requires
        index < count,
        zip_entry_at(archive, index) == Ok::<(bool, Seq<char>), Seq<char>>((false, name)),
        seq_ends_with(lowercase(name), ".xml"@),
        zip_entry_data(archive, index) == Ok::<Seq<u8>, (bool, Seq<char>)>(data),
        valid_utf8(data),
    ensures
        zip_documents(archive, index, count).0.len() >= 1,
        zip_documents(archive, index, count).0[0] == decode_utf8(data),
{
    lemma_xml_not_gz(lowercase(name));
    assert(plain_documents(name, data) == (seq![decode_utf8(data)], None::<Seq<char>>));
    let rest = zip_documents(archive, index + 1, count);
    assert((seq![decode_utf8(data)] + rest.0)[0] == decode_utf8(data));
}

/// A `.zip` payload whose archive holds one file entry, named with `.xml` (in
/// any case) and holding valid UTF-8, gives exactly that entry's text as its
/// one document, and no error.
pub proof fn lemma_zip_with_one_report(filename: Seq<char>, bytes: Seq<u8>, name: Seq<char>, data: Seq<u8>)
    requires
        seq_ends_with(lowercase(filename), ".zip"@),
        zip_opened(bytes) == Ok::<nat, Seq<char>>(1),
        zip_entry_at(bytes, 0) == Ok::<(bool, Seq<char>), Seq<char>>((false, name)),
        seq_ends_with(lowercase(name), ".xml"@),
        zip_entry_data(bytes, 0) == Ok::<Seq<u8>, (bool, Seq<char>)>(data),
        valid_utf8(data),
    ensures
        payload_spec(filename, bytes) == (seq![decode_utf8(data)], None::<Seq<char>>),
{
    lemma_xml_not_gz(lowercase(name));
    assert(zip_documents(bytes, 1, 1) == (Seq::<Seq<char>>::empty(), None::<Seq<char>>));
    assert(seq![decode_utf8(data)] + Seq::<Seq<char>>::empty() =~= seq![decode_utf8(data)]);
}

/// A payload that is not a `.zip` and whose name does not end with `.gz` is one
/// XML document: its text when it is valid UTF-8.
pub proof fn lemma_plain_xml_payload(filename: Seq<char>, bytes: Seq<u8>)
    requires
        seq_ends_with(lowercase(filename), ".xml"@),
        valid_utf8(bytes),
    ensures
        payload_spec(filename, bytes) == (seq![decode_utf8(bytes)], None::<Seq<char>>),
{
    lemma_xml_not_gz(lowercase(filename));
    reveal_strlit(".xml");
    reveal_strlit(".zip");
    let l = lowercase(filename);
    if seq_ends_with(l, ".zip"@) {
        let t = l.subrange(l.len() - 4, l.len() as int);
        let z = l.subrange(l.len() - 4, l.len() as int);
        assert(t[3] == 'l');
        assert(z[3] == 'p');
    }
}

/// Report files are those whose lower-cased name ends with `.xml`, `.xml.gz`,
/// `.gz` or `.zip`.
pub proof fn lemma_report_file_names(name: Seq<char>)
    ensures
        seq_ends_with(lowercase(name), ".xml"@) ==> report_filename_supported(name),
        seq_ends_with(lowercase(name), ".xml.gz"@) ==> report_filename_supported(name),
        seq_ends_with(lowercase(name), ".gz"@) ==> report_filename_supported(name),
        seq_ends_with(lowercase(name), ".zip"@) ==> report_filename_supported(name),
{
}

} // verus!
