//! Report attachments in a mail message: which parts are attachments, their
//! names, and their decoded bytes.
use vstd::prelude::*;

use crate::error::{error_text, AppError};
use crate::importer::{is_supported_report_filename, report_filename_supported};
use crate::mailbox::owned_view;
use crate::text::{
    append, concat2, contains, decimal_seq, lowercase, push_decimal, seq_contains, string_of,
    to_lowercase, views,
};
use base64::Engine;
use mailparse::body::Body;

verus! {

/// An e-mail message, as `mailparse` reads it.
#[verifier::external_type_specification]
#[verifier::external_body]
pub struct ExParsedMail<'a>(mailparse::ParsedMail<'a>);

/// The body of a leaf part, by its transfer encoding, as the logic reads it.
pub enum MailBody {
    /// Base64: the strict decoding (or the message of its error), and the raw text.
    Base64 { decoded: Result<Vec<u8>, String>, raw: Vec<u8> },
    /// Quoted-printable: the decoding, or the message of its error.
    QuotedPrintable { decoded: Result<Vec<u8>, String> },
    /// 7bit, 8bit or binary: the bytes as they are.
    Plain { raw: Vec<u8> },
}

/// A part of a message, as the logic reads it.
pub struct MailPart {
    pub mimetype: String,
    /// The part's `Content-Disposition` is `attachment`.
    pub is_attachment: bool,
    /// The `filename` parameter of the part's `Content-Disposition`.
    pub disposition_filename: Option<String>,
    /// The `name` parameter of the part's `Content-Type`.
    pub content_type_name: Option<String>,
    /// The part's first `Content-Description` header.
    pub content_description: Option<String>,
    pub body: MailBody,
    pub subparts: Vec<MailPart>,
}

/// An attachment found in a message.
pub struct MailboxAttachment {
    pub filename: String,
    pub bytes: Vec<u8>,
}

/// A body as plain values.
pub enum BodyModel {
    Base64 { decoded: Result<Seq<u8>, Seq<char>>, raw: Seq<u8> },
    QuotedPrintable { decoded: Result<Seq<u8>, Seq<char>> },
    Plain { raw: Seq<u8> },
}

/// A part, with its subparts, as plain values.
pub struct PartModel {
    pub mimetype: Seq<char>,
    pub is_attachment: bool,
    pub disposition_filename: Option<Seq<char>>,
    pub content_type_name: Option<Seq<char>>,
    pub content_description: Option<Seq<char>>,
    pub body: BodyModel,
    pub subparts: Seq<PartModel>,
}

/// The plain value of a decoding: its bytes or its message.
pub open spec fn decoded_model(d: Result<Vec<u8>, String>) -> Result<Seq<u8>, Seq<char>> {
    match d {
        Ok(v) => Ok(v@),
        Err(m) => Err(m@),
    }
}

/// The plain values of a body.
pub open spec fn body_model(b: MailBody) -> BodyModel {
    match b {
        MailBody::Base64 { decoded, raw } => BodyModel::Base64 { decoded: decoded_model(decoded), raw: raw@ },
        MailBody::QuotedPrintable { decoded } => BodyModel::QuotedPrintable { decoded: decoded_model(decoded) },
        MailBody::Plain { raw } => BodyModel::Plain { raw: raw@ },
    }
}

/// The plain values of a part and its subparts.
pub open spec fn part_model(p: MailPart) -> PartModel
    decreases p,
{
    PartModel {
        mimetype: p.mimetype@,
        is_attachment: p.is_attachment,
        disposition_filename: owned_view(p.disposition_filename),
        content_type_name: owned_view(p.content_type_name),
        content_description: owned_view(p.content_description),
        body: body_model(p.body),
        subparts: parts_model(p.subparts@),
    }
}

/// The plain values of several parts, in order.
pub open spec fn parts_model(ps: Seq<MailPart>) -> Seq<PartModel>
    decreases ps,
{
    if ps.len() == 0 {
        Seq::<PartModel>::empty()
    } else {
        parts_model(ps.drop_last()).push(part_model(ps.last()))
    }
}

/// Names what `mailparse::parse_mail` reads from a raw message, as the parts
/// that the logic uses, or the message of its error.
pub uninterp spec fn mail_parsed(raw: Seq<u8>) -> Result<PartModel, Seq<char>>;

/// Converts the body of a part by its transfer encoding, with the decodings
/// that `mailparse` gives (an error as its message).
#[verifier::external_body]
fn body_of(p: &mailparse::ParsedMail) -> MailBody {
    match p.get_body_encoded() {
        Body::Base64(b) => MailBody::Base64 { decoded: b.get_decoded().map_err(|e| e.to_string()), raw: b.get_raw().to_vec() },
        Body::QuotedPrintable(b) => MailBody::QuotedPrintable { decoded: b.get_decoded().map_err(|e| e.to_string()) },
        Body::SevenBit(b) | Body::EightBit(b) => MailBody::Plain { raw: b.get_raw().to_vec() },
        Body::Binary(b) => MailBody::Plain { raw: b.get_raw().to_vec() },
    }
}

/// Converts a part that `mailparse` read, with its subparts, into a `MailPart`:
/// the disposition and content-type parameters and the first description header.
#[verifier::external_body]
fn part_of(p: &mailparse::ParsedMail) -> MailPart {
    let disposition = p.get_content_disposition();
    MailPart {
        mimetype: p.ctype.mimetype.clone(),
        is_attachment: disposition.disposition == mailparse::DispositionType::Attachment,
        disposition_filename: disposition.params.get("filename").cloned(),
        content_type_name: p.ctype.params.get("name").cloned(),
        content_description: mailparse::MailHeaderMap::get_first_value(p.headers.as_slice(), "Content-Description"),
        body: body_of(p),
        subparts: p.subparts.iter().map(part_of).collect(),
    }
}

/// Calls `mailparse::parse_mail` and converts the parts it read; on failure
/// gives the error's message. What it reads is named, not stated.
#[verifier::external_body]
fn parse_mail_parts(raw: &[u8]) -> (r: Result<MailPart, String>)
    ensures
        match r {
            Ok(p) => mail_parsed(raw@) == Ok::<PartModel, Seq<char>>(part_model(p)),
            Err(m) => mail_parsed(raw@) == Err::<PartModel, Seq<char>>(m@),
        },
{
    match mailparse::parse_mail(raw) {
        Ok(p) => Ok(part_of(&p)),
        Err(e) => Err(e.to_string()),
    }
}

/// Reads a raw message into its parts; a message that cannot be read is an
/// email parse error.
pub fn read_message(raw: &[u8]) -> (r: Result<MailPart, AppError>)
    ensures
        match r {
            Ok(p) => mail_parsed(raw@) == Ok::<PartModel, Seq<char>>(part_model(p)),
            Err(e) => e is MailParse && mail_parsed(raw@) == Err::<PartModel, Seq<char>>(
                e->MailParse_0@,
            ),
        },
{
    match parse_mail_parts(raw) {
        Ok(p) => Ok(p),
        Err(m) => Err(AppError::MailParse(m)),
    }
}

/// Names what `STANDARD.decode` of the `base64` crate gives for a text: the
/// bytes, or the message of its error.
pub uninterp spec fn base64_decoded(text: Seq<u8>) -> Result<Seq<u8>, Seq<char>>;

/// Calls `STANDARD.decode` of the `base64` crate; on failure gives the error's message.
#[verifier::external_body]
fn decode_base64_standard(text: &[u8]) -> (r: Result<Vec<u8>, String>)
    ensures
        match r {
            Ok(v) => base64_decoded(text@) == Ok::<Seq<u8>, Seq<char>>(v@),
            Err(m) => base64_decoded(text@) == Err::<Seq<u8>, Seq<char>>(m@),
        },
{
    match base64::engine::general_purpose::STANDARD.decode(text) {
        Ok(v) => Ok(v),
        Err(e) => Err(e.to_string()),
    }
}

/// The base64 alphabet kept from a raw body, with the URL-safe `-` and `_`
/// read as `+` and `/`; everything else dropped.
pub open spec fn base64_cleaned(raw: Seq<u8>) -> Seq<u8>
    decreases raw.len(),
{
    if raw.len() == 0 {
        Seq::<u8>::empty()
    } else {
        let b = raw.last();
        base64_cleaned(raw.drop_last()) + if (65 <= b <= 90) || (97 <= b <= 122) || (48 <= b
            <= 57) || b == 43 || b == 47 {
            seq![b]
        } else if b == 45 {
            seq![43u8]
        } else if b == 95 {
            seq![47u8]
        } else {
            Seq::<u8>::empty()
        }
    }
}

/// The cleaned text, padded with `=` to a multiple of four.
pub open spec fn base64_padded(raw: Seq<u8>) -> Seq<u8> {
    let c = base64_cleaned(raw);
    c + Seq::new(((4 - c.len() % 4) % 4) as nat, |i: int| 61u8)
}

/// Decodes a base64 body that strict decoding refused: stray characters are
/// dropped, URL-safe ones read as standard, and missing padding added.
pub fn decode_lenient_base64(raw: &[u8]) -> (r: Result<Vec<u8>, String>)
    ensures
        match r {
            Ok(v) => base64_decoded(base64_padded(raw@)) == Ok::<Seq<u8>, Seq<char>>(v@),
            Err(m) => base64_decoded(base64_padded(raw@)) == Err::<Seq<u8>, Seq<char>>(m@),
        },
{
    let mut cleaned: Vec<u8> = Vec::new();
    let mut i: usize = 0;
    while i < raw.len()
        invariant
            i <= raw@.len(),
            cleaned@ == base64_cleaned(raw@.take(i as int)),
        decreases raw.len() - i,
    {
        let b = raw[i];
        assert(raw@.take(i + 1).drop_last() =~= raw@.take(i as int));
        assert(raw@.take(i + 1).last() == b);
        let ghost before = cleaned@;
        if (65 <= b && b <= 90) || (97 <= b && b <= 122) || (48 <= b && b <= 57) || b == 43 || b
            == 47 {
            cleaned.push(b);
        } else if b == 45 {
            cleaned.push(43);
        } else if b == 95 {
            cleaned.push(47);
        }
        assert(cleaned@ =~= base64_cleaned(raw@.take(i + 1)));
        i = i + 1;
    }
    assert(raw@.take(raw@.len() as int) =~= raw@);
    let ghost c = cleaned@;
    let padding = (4 - cleaned.len() % 4) % 4;
    let mut k: usize = 0;
    while k < padding
        invariant
            k <= padding,
            padding == (4 - c.len() % 4) % 4,
            cleaned@ == c + Seq::new(k as nat, |j: int| 61u8),
        decreases padding - k,
    {
        cleaned.push(61);
        assert(cleaned@ =~= c + Seq::new((k + 1) as nat, |j: int| 61u8));
        k = k + 1;
    }
    assert(cleaned@ =~= base64_padded(raw@));
    decode_base64_standard(cleaned.as_slice())
}

/// A MIME type of report payloads: zip, gzip, XML, or unspecified binary, in any case.
pub open spec fn mimetype_supported(m: Seq<char>) -> bool {
    let l = lowercase(m);
    l == "application/zip"@ || l == "application/gzip"@ || l == "application/x-gzip"@ || l
        == "application/xml"@ || l == "text/xml"@ || l == "application/octet-stream"@
}

/// The file extension for a payload of a MIME type.
pub open spec fn mimetype_extension(m: Seq<char>) -> Seq<char> {
    let l = lowercase(m);
    if l == "application/zip"@ {
        "zip"@
    } else if l == "application/gzip"@ || l == "application/x-gzip"@ {
        "gz"@
    } else {
        "xml"@
    }
}

/// The report payload types, in any case: ZIP, gzip (both names), XML (both
/// names) and octet streams; a ZIP is saved as `.zip`, gzip as `.gz`, and the
/// rest as `.xml`.
pub proof fn lemma_report_mimetypes(m: Seq<char>)
    ensures
        lowercase(m) == "application/zip"@ ==> mimetype_supported(m) && mimetype_extension(m) == "zip"@,
        lowercase(m) == "application/gzip"@ ==> mimetype_supported(m) && mimetype_extension(m) == "gz"@,
        lowercase(m) == "application/x-gzip"@ ==> mimetype_supported(m) && mimetype_extension(m) == "gz"@,
        lowercase(m) == "text/xml"@ ==> mimetype_supported(m) && mimetype_extension(m) == "xml"@,
        lowercase(m) == "application/xml"@ ==> mimetype_supported(m) && mimetype_extension(m) == "xml"@,
        lowercase(m) == "application/octet-stream"@ ==> mimetype_supported(m),
{
    reveal_strlit("application/zip");
    reveal_strlit("application/gzip");
    reveal_strlit("application/x-gzip");
    reveal_strlit("application/xml");
    reveal_strlit("text/xml");
    let z = "application/zip"@;
    let g = "application/gzip"@;
    let x = "application/x-gzip"@;
    let a = "application/xml"@;
    let t = "text/xml"@;
    assert(g[12] != z[12] && x[12] != z[12] && a[12] != z[12] && t.len() != z.len());
    assert(a[12] != g[12] && a[13] != x[13] && t.len() != g.len() && t.len() != x.len());
}

/// Whether a MIME type is one of report payloads; see `mimetype_supported`.
pub fn is_supported_mimetype(mimetype: &str) -> (b: bool)
    ensures
        b == mimetype_supported(mimetype@),
{
    let l = to_lowercase(mimetype);
    let s = l.as_str();
    crate::dmarc::str_eq(s, "application/zip") || crate::dmarc::str_eq(s, "application/gzip")
        || crate::dmarc::str_eq(s, "application/x-gzip") || crate::dmarc::str_eq(
        s,
        "application/xml",
    ) || crate::dmarc::str_eq(s, "text/xml") || crate::dmarc::str_eq(
        s,
        "application/octet-stream",
    )
}

/// The file extension for a MIME type; see `mimetype_extension`.
pub fn extension_for_mimetype(mimetype: &str) -> (r: &'static str)
    ensures
        r@ == mimetype_extension(mimetype@),
{
    let l = to_lowercase(mimetype);
    let s = l.as_str();
    if crate::dmarc::str_eq(s, "application/zip") {
        "zip"
    } else if crate::dmarc::str_eq(s, "application/gzip") || crate::dmarc::str_eq(
        s,
        "application/x-gzip",
    ) {
        "gz"
    } else {
        "xml"
    }
}

/// The view of an optional owned string.
pub open spec fn name_view(v: Option<String>) -> Option<Seq<char>> {
    match v {
        Some(s) => Some(s@),
        None => None,
    }
}

/// The part looks like an attachment although it names no file.
pub open spec fn looks_like_attachment(part: MailPart) -> bool {
    ||| part.is_attachment
    ||| mimetype_supported(part.mimetype@)
    ||| (part.content_description matches Some(d) && seq_contains(lowercase(d@), "dmarc"@))
}

/// The name of a part as an attachment: the disposition's file name, else the
/// content type's name, else, for a part that looks like an attachment, a
/// name made of its position among the attachments and its type's extension.
pub open spec fn filename_of(part: MailPart, index: nat) -> Option<Seq<char>> {
    match name_view(part.disposition_filename) {
        Some(f) => Some(f),
        None => match name_view(part.content_type_name) {
            Some(n) => Some(n),
            None => if looks_like_attachment(part) {
                Some(
                    "dmarc-attachment-"@ + decimal_seq(index) + "."@ + mimetype_extension(
                        part.mimetype@,
                    ),
                )
            } else {
                None
            },
        },
    }
}

/// The name of `part` as the attachment at position `index` (from one).
pub fn attachment_filename(part: &MailPart, index: usize) -> (r: Option<String>)
    ensures
        name_view(r) == filename_of(*part, index as nat),
{
    match &part.disposition_filename {
        Some(f) => {
            return Some(string_of(f.as_str()));
        },
        None => {},
    }
    match &part.content_type_name {
        Some(n) => {
            return Some(string_of(n.as_str()));
        },
        None => {},
    }
    let described = match &part.content_description {
        Some(d) => {
            let l = to_lowercase(d.as_str());
            contains(l.as_str(), "dmarc")
        },
        None => false,
    };
    if part.is_attachment || is_supported_mimetype(part.mimetype.as_str()) || described {
        let mut name = string_of("dmarc-attachment-");
        push_decimal(&mut name, index as u64);
        append(&mut name, ".");
        append(&mut name, extension_for_mimetype(part.mimetype.as_str()));
        Some(name)
    } else {
        None
    }
}

/// What decoding a part's body gives: its bytes, or the text of the error.
pub open spec fn body_outcome(part: MailPart, filename: Seq<char>) -> Result<Seq<u8>, Seq<char>> {
    match part.body {
        MailBody::Base64 { decoded, raw } => match decoded {
            Ok(b) => Ok(b@),
            Err(strict) => match base64_decoded(base64_padded(raw@)) {
                Ok(b) => Ok(b),
                Err(fallback) => Err(
                    "mailbox error: "@ + ("could not decode base64 body for "@ + filename + " ("@
                        + strict@ + "; fallback failed: "@ + fallback + ")"@),
                ),
            },
        },
        MailBody::QuotedPrintable { decoded } => match decoded {
            Ok(b) => Ok(b@),
            Err(m) => Err("email parse error: "@ + m@),
        },
        MailBody::Plain { raw } => Ok(raw@),
    }
}

fn copy_vec(v: &Vec<u8>) -> (r: Vec<u8>)
    ensures
        r@ == v@,
{
    crate::http::copy_bytes(v.as_slice())
}

/// The decoded body of a part; a base64 body that strict decoding refuses is
/// decoded leniently before it counts as an error.
pub fn attachment_body_bytes(part: &MailPart, filename: &str) -> (r: Result<Vec<u8>, AppError>)
    ensures
        match r {
            Ok(b) => body_outcome(*part, filename@) == Ok::<Seq<u8>, Seq<char>>(b@),
            Err(e) => error_text(e) matches Some(t) && body_outcome(*part, filename@) == Err::<
                Seq<u8>,
                Seq<char>,
            >(t),
        },
{
    match &part.body {
        MailBody::Base64 { decoded, raw } => match decoded {
            Ok(b) => Ok(copy_vec(b)),
            Err(strict) => match decode_lenient_base64(raw.as_slice()) {
                Ok(b) => Ok(b),
                Err(fallback) => {
                    let mut m = string_of("could not decode base64 body for ");
                    append(&mut m, filename);
                    append(&mut m, " (");
                    append(&mut m, strict.as_str());
                    append(&mut m, "; fallback failed: ");
                    append(&mut m, fallback.as_str());
                    append(&mut m, ")");
                    assert(m@ =~= "could not decode base64 body for "@ + filename@ + " ("@ + strict@
                        + "; fallback failed: "@ + fallback@ + ")"@);
                    Err(AppError::Mailbox(m))
                },
            },
        },
        MailBody::QuotedPrintable { decoded } => match decoded {
            Ok(b) => Ok(copy_vec(b)),
            Err(m) => Err(AppError::MailParse(string_of(m.as_str()))),
        },
        MailBody::Plain { raw } => Ok(copy_vec(raw)),
    }
}

// ---------------------------------------------------------------------------
// Collecting attachments
// ---------------------------------------------------------------------------

/// The leaf parts of a part, depth first, in order.
pub open spec fn leaves(part: MailPart) -> Seq<MailPart>
    decreases part,
{
    if part.subparts@.len() == 0 {
        seq![part]
    } else {
        parts_leaves(part.subparts@)
    }
}

/// The leaf parts of several parts, in order.
pub open spec fn parts_leaves(parts: Seq<MailPart>) -> Seq<MailPart>
    decreases parts,
{
    if parts.len() == 0 {
        Seq::<MailPart>::empty()
    } else {
        parts_leaves(parts.drop_last()) + leaves(parts.last())
    }
}

/// The attachments found so far, with their names and bytes, and the texts
/// of the failures.
pub type Found = (Seq<(Seq<char>, Seq<u8>)>, Seq<Seq<char>>);

/// What one leaf part adds: named report parts are attachments when their
/// body decodes, and failures otherwise; other parts add nothing.
pub open spec fn leaf_step(part: MailPart, found: Found) -> Found {
    match filename_of(part, (found.0.len() + 1) as nat) {
        None => found,
        Some(f) => if report_filename_supported(f) || mimetype_supported(part.mimetype@) {
            match body_outcome(part, f) {
                Ok(b) => (found.0.push((f, b)), found.1),
                Err(t) => (found.0, found.1.push(f + ": "@ + t)),
            }
        } else {
            found
        },
    }
}

/// The leaves taken in order.
pub open spec fn fold_leaves(ls: Seq<MailPart>, found: Found) -> Found
    decreases ls.len(),
{
    if ls.len() == 0 {
        found
    } else {
        leaf_step(ls.last(), fold_leaves(ls.drop_last(), found))
    }
}

/// The names and bytes of attachments.
pub open spec fn attachment_views(v: Seq<MailboxAttachment>) -> Seq<(Seq<char>, Seq<u8>)> {
    v.map_values(|a: MailboxAttachment| (a.filename@, a.bytes@))
}

proof fn lemma_fold_append(a: Seq<MailPart>, b: Seq<MailPart>, found: Found)
    ensures
        fold_leaves(a + b, found) == fold_leaves(b, fold_leaves(a, found)),
    decreases b.len(),
{
    if b.len() == 0 {
        assert(a + b =~= a);
    } else {
        assert((a + b).drop_last() =~= a + b.drop_last());
        assert((a + b).last() == b.last());
        lemma_fold_append(a, b.drop_last(), found);
    }
}

proof fn lemma_fold_growth(ls: Seq<MailPart>, found: Found)
    ensures
        found.0.len() <= fold_leaves(ls, found).0.len() <= found.0.len() + ls.len(),
    decreases ls.len(),
{
    if ls.len() > 0 {
        lemma_fold_growth(ls.drop_last(), found);
    }
}

proof fn lemma_parts_leaves_take(parts: Seq<MailPart>, i: int)
    requires
        0 <= i < parts.len(),
    ensures
        parts_leaves(parts.take(i + 1)) == parts_leaves(parts.take(i)) + leaves(parts[i]),
{
    assert(parts.take(i + 1).drop_last() =~= parts.take(i));
    assert(parts.take(i + 1).last() == parts[i]);
}

proof fn lemma_parts_leaves_prefix(parts: Seq<MailPart>, i: int, j: int)
    requires
        0 <= i <= j <= parts.len(),
    ensures
        parts_leaves(parts.take(i)).len() <= parts_leaves(parts.take(j)).len(),
    decreases j - i,
{
    if i < j {
        lemma_parts_leaves_prefix(parts, i, j - 1);
        lemma_parts_leaves_take(parts, j - 1);
    }
}

/// Collects the report attachments of a message part and its subparts,
/// depth first: each named report part's decoded body, or the text of its
/// failure. The collection itself never fails.
pub fn collect_attachments(
    message: &MailPart,
    attachments: &mut Vec<MailboxAttachment>,
    failed_attachments: &mut Vec<String>,
) -> (r: Result<(), AppError>)
    requires
        old(attachments)@.len() + leaves(*message).len() < usize::MAX,
    ensures
        r is Ok,
        (attachment_views(final(attachments)@), views(final(failed_attachments)@)) == fold_leaves(
            leaves(*message),
            (attachment_views(old(attachments)@), views(old(failed_attachments)@)),
        ),
    decreases message,
{
    if message.subparts.len() == 0 {
        let ghost found: Found = (attachment_views(attachments@), views(failed_attachments@));
        assert(leaves(*message) =~= seq![*message]);
        assert(seq![*message].drop_last() =~= Seq::<MailPart>::empty());
        assert(fold_leaves(Seq::<MailPart>::empty(), found) == found);
        assert(seq![*message].last() == *message);
        assert(fold_leaves(seq![*message], found) == leaf_step(*message, found));
        assert(attachment_views(attachments@).len() == attachments@.len());
        let index = attachments.len() + 1;
        match attachment_filename(message, index) {
            Some(filename) => {
                if is_supported_report_filename(filename.as_str()) || is_supported_mimetype(
                    message.mimetype.as_str(),
                ) {
                    match attachment_body_bytes(message, filename.as_str()) {
                        Ok(bytes) => {
                            attachments.push(MailboxAttachment { filename, bytes });
                            assert(attachment_views(attachments@) =~= found.0.push(
                                (attachments@.last().filename@, attachments@.last().bytes@),
                            ));
                        },
                        Err(e) => {
                            let text = e.to_text();
                            let entry = crate::text::concat3(filename.as_str(), ": ", text.as_str());
                            failed_attachments.push(entry);
                            assert(views(failed_attachments@) =~= found.1.push(entry@));
                        },
                    }
                }
            },
            None => {},
        }
        return Ok(());
    }
    let ghost start: Found = (attachment_views(attachments@), views(failed_attachments@));
    let ghost subs = message.subparts@;
    let mut i: usize = 0;
    assert(subs.take(0) =~= Seq::<MailPart>::empty());
    while i < message.subparts.len()
        invariant
            i <= subs.len(),
            subs == message.subparts@,
            subs.len() > 0,
            leaves(*message) == parts_leaves(subs),
            start.0.len() + parts_leaves(subs).len() < usize::MAX,
            (attachment_views(attachments@), views(failed_attachments@)) == fold_leaves(
                parts_leaves(subs.take(i as int)),
                start,
            ),
        decreases subs.len() - i,
    {
        proof {
            lemma_parts_leaves_take(subs, i as int);
            lemma_parts_leaves_prefix(subs, i + 1, subs.len() as int);
            assert(subs.take(subs.len() as int) =~= subs);
            lemma_fold_growth(parts_leaves(subs.take(i as int)), start);
            lemma_fold_append(parts_leaves(subs.take(i as int)), leaves(subs[i as int]), start);
            assert(decreases_to!(*message => message.subparts@[i as int]));
        }
        collect_attachments(&message.subparts[i], attachments, failed_attachments);
        i = i + 1;
    }
    assert(subs.take(subs.len() as int) =~= subs);
    Ok(())
}

/// The number of leaf parts of `part`, when it is at most `limit`.
fn leaf_count_within(part: &MailPart, limit: usize) -> (r: Option<usize>)
    ensures
        match r {
            Some(n) => n == leaves(*part).len() && n <= limit,
            None => leaves(*part).len() > limit,
        },
    decreases part,
{
    if part.subparts.len() == 0 {
        assert(leaves(*part) =~= seq![*part]);
        return if limit >= 1 {
            Some(1)
        } else {
            None
        };
    }
    let ghost subs = part.subparts@;
    let mut total: usize = 0;
    let mut i: usize = 0;
    assert(subs.take(0) =~= Seq::<MailPart>::empty());
    while i < part.subparts.len()
        invariant
            i <= subs.len(),
            subs == part.subparts@,
            subs.len() > 0,
            leaves(*part) == parts_leaves(subs),
            total == parts_leaves(subs.take(i as int)).len(),
            total <= limit,
        decreases subs.len() - i,
    {
        proof {
            lemma_parts_leaves_take(subs, i as int);
        }
        match leaf_count_within(&part.subparts[i], limit - total) {
            Some(n) => {
                total = total + n;
            },
            None => {
                proof {
                    lemma_parts_leaves_prefix(subs, i + 1, subs.len() as int);
                    assert(subs.take(subs.len() as int) =~= subs);
                }
                return None;
            },
        }
        i = i + 1;
    }
    assert(subs.take(subs.len() as int) =~= subs);
    Some(total)
}

/// Whether collecting the attachments of `part` after `collected` ones stays
/// within the counts that `collect_attachments` can number.
pub fn collection_fits(part: &MailPart, collected: usize) -> (b: bool)
    ensures
        b <==> collected + leaves(*part).len() < usize::MAX,
{
    if collected == usize::MAX {
        return false;
    }
    match leaf_count_within(part, usize::MAX - 1 - collected) {
        Some(_) => true,
        None => false,
    }
}

} // verus!
