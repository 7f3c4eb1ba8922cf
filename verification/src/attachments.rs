//! Files that are attached to a turn: which are taken, and under which name
//! they are stored.

use crate::bytes::{byte_len, byte_length};
use crate::text::{
    alphanumeric, begins, char_is_alphanumeric, chars_of, hex, hex_is_hexadecimal, hex_of,
    is_digest_text, push_all, push_text, sha256,
    sha256_digest, split, split_of, starts_with, string_of, texts,
};
use base64::Engine;
use vstd::prelude::*;

verus! {

/// The most bytes of an attachment.
pub const MAX_ATTACHMENT_BYTES: usize = 20_971_520;

/// The standard base64 text of bytes, as `base64` encodes them.
pub uninterp spec fn base64_text(bytes: Seq<u8>) -> Seq<char>;

/// The size of the base64 text of some number of bytes.
pub open spec fn base64_len(n: nat) -> nat {
    4 * ((n + 2) / 3)
}

/// A vector can hold the base64 text of this many bytes.
pub open spec fn is_encodable(n: nat) -> bool {
    base64_len(n) <= isize::MAX
}

/// `base64::engine::general_purpose::STANDARD` with `Engine::encode`: four
/// characters for each three bytes begun, padded. The text is written into a
/// vector of its size, so that size must be one that a vector can have.
#[verifier::external_body]
pub(crate) fn base64_encode(bytes: &[u8]) -> (r: String)
    requires
        is_encodable(bytes@.len()),
    ensures
        r@ == base64_text(bytes@),
        r@.len() == base64_len(bytes@.len()),
{
    base64::engine::general_purpose::STANDARD.encode(bytes)
}

/// The model reads text alone: no image is supported.
pub fn attachment_mime_is_supported(mime: &str) -> (r: bool)
    ensures
        r == !starts_with(mime@, "image/"@),
{
    let chars = chars_of(mime);
    !begins(&chars, "image/")
}

/// The part of a form that holds the file: it has that name, or none.
pub fn is_file_field(name: Option<&str>) -> (r: bool)
    ensures
        r == match name {
            Some(name) => name@ == "file"@,
            None => true,
        },
{
    match name {
        Some(name) => crate::text::same(name, "file"),
        None => true,
    }
}

/// The file of a form.
#[derive(Debug, PartialEq, Eq)]
pub struct UploadField {
    pub filename: Option<String>,
    pub content_type: Option<String>,
    /// The bytes, or why they could not be read.
    pub bytes: Result<Vec<u8>, String>,
}

#[derive(Debug, PartialEq, Eq)]
pub enum UploadError {
    TooLarge,
    Unreadable(String),
    NoFile,
    ImageUnsupported,
}

impl UploadError {
    /// The status that the refusal is answered with.
    pub fn status(&self) -> (r: u16)
        ensures
            r == match *self {
                UploadError::TooLarge => 413u16,
                UploadError::Unreadable(_) => 400u16,
                UploadError::NoFile => 400u16,
                UploadError::ImageUnsupported => 415u16,
            },
    {
        match self {
            UploadError::TooLarge => 413,
            UploadError::Unreadable(_) => 400,
            UploadError::NoFile => 400,
            UploadError::ImageUnsupported => 415,
        }
    }

    pub fn message(&self) -> (r: &str)
        ensures
            r@ == match *self {
                UploadError::TooLarge => "Súbor je príliš veľký (max 20 MB)"@,
                UploadError::Unreadable(error) => error@,
                UploadError::NoFile => "no file field in multipart"@,
                UploadError::ImageUnsupported =>
                    "Image attachments are not supported by the configured text-only BaseRT model."@,
            },
    {
        match self {
            UploadError::TooLarge => "Súbor je príliš veľký (max 20 MB)",
            UploadError::Unreadable(error) => error.as_str(),
            UploadError::NoFile => "no file field in multipart",
            UploadError::ImageUnsupported =>
                "Image attachments are not supported by the configured text-only BaseRT model.",
        }
    }
}

/// A file that is taken.
#[derive(Debug, PartialEq, Eq)]
pub struct StoredUpload {
    pub filename: String,
    pub mime: String,
    pub bytes: Vec<u8>,
    /// The digest of the bytes.
    pub sha256: String,
    /// The name that the bytes are stored under.
    pub stored_name: String,
}

pub open spec fn all_alphanumeric(s: Seq<char>) -> bool {
    forall|i: int| 0 <= i < s.len() ==> alphanumeric(#[trigger] s[i])
}

/// The extension of a file, where it is short and plain.
pub open spec fn extension(filename: Seq<char>) -> Seq<char> {
    let last = split(filename, '.').last();
    if byte_len(last) <= 6 && all_alphanumeric(last) {
        last
    } else {
        "bin"@
    }
}

fn extension_of(filename: &str) -> (r: Vec<char>)
    ensures
        r@ == extension(filename@),
{
    let chars = chars_of(filename);
    let mut parts = split_of(&chars, '.');
    let n: usize = parts.len();
    proof {
        assert(texts(parts@)[n - 1] == parts@[n - 1]@);
    }
    let last = parts.remove(n - 1);
    if byte_length(&last) > 6 {
        return chars_of("bin");
    }
    let mut i: usize = 0;
    while i < last.len()
        invariant
            i <= last@.len(),
            last@ == split(filename@, '.').last(),
            forall|j: int| 0 <= j < i ==> alphanumeric(#[trigger] last@[j]),
        decreases last@.len() - i,
    {
        if !char_is_alphanumeric(last[i]) {
            proof {
                assert(!alphanumeric(last@[i as int]));
            }
            return chars_of("bin");
        }
        i = i + 1;
    }
    last
}

pub open spec fn digest_text(bytes: Seq<u8>) -> Seq<char> {
    hex(sha256(bytes))
}

pub open spec fn field_name(field: UploadField) -> Seq<char> {
    match field.filename {
        Some(name) => name@,
        None => "attachment"@,
    }
}

pub open spec fn field_mime(field: UploadField) -> Seq<char> {
    match field.content_type {
        Some(mime) => mime@,
        None => "application/octet-stream"@,
    }
}

/// Which file is taken, and why another is not.
pub open spec fn is_received(field: Option<UploadField>, result: Result<StoredUpload, UploadError>) -> bool {
    match field {
        None => result == Err::<StoredUpload, UploadError>(UploadError::NoFile),
        Some(field) => match field.bytes {
            Err(error) => result == Err::<StoredUpload, UploadError>(
                UploadError::Unreadable(error),
            ),
            Ok(bytes) => if bytes@.len() > MAX_ATTACHMENT_BYTES {
                result == Err::<StoredUpload, UploadError>(UploadError::TooLarge)
            } else if bytes@.len() == 0 {
                result == Err::<StoredUpload, UploadError>(UploadError::NoFile)
            } else if starts_with(field_mime(field), "image/"@) {
                result == Err::<StoredUpload, UploadError>(UploadError::ImageUnsupported)
            } else {
                &&& result matches Ok(upload)
                &&& upload.filename@ == field_name(field)
                &&& upload.mime@ == field_mime(field)
                &&& upload.bytes == bytes
                &&& upload.sha256@ == digest_text(bytes@)
                &&& upload.stored_name@ == digest_text(bytes@) + "."@ + extension(
                    field_name(field),
                )
            },
        },
    }
}

/// Takes the file of a form.
pub fn receive_upload(field: Option<UploadField>) -> (r: Result<StoredUpload, UploadError>)
    ensures
        is_received(field, r),
        r matches Ok(upload) ==> is_digest_text(upload.sha256@),
{
    let field = match field {
        Some(field) => field,
        None => {
            return Err(UploadError::NoFile);
        },
    };
    let filename = match field.filename {
        Some(name) => name,
        None => "attachment".to_owned(),
    };
    let mime = match field.content_type {
        Some(mime) => mime,
        None => "application/octet-stream".to_owned(),
    };
    let bytes = match field.bytes {
        Ok(bytes) => bytes,
        Err(error) => {
            return Err(UploadError::Unreadable(error));
        },
    };
    if bytes.len() > MAX_ATTACHMENT_BYTES {
        return Err(UploadError::TooLarge);
    }
    if bytes.len() == 0 {
        return Err(UploadError::NoFile);
    }
    if !attachment_mime_is_supported(mime.as_str()) {
        return Err(UploadError::ImageUnsupported);
    }
    let digest = sha256_digest(bytes.as_slice());
    proof {
        hex_is_hexadecimal(digest@);
    }
    let name = hex_of(&digest);
    let mut stored = hex_of(&digest);
    push_text(&mut stored, ".");
    push_all(&mut stored, &extension_of(filename.as_str()));
    Ok(
        StoredUpload {
            filename,
            mime,
            bytes,
            sha256: string_of(&name),
            stored_name: string_of(&stored),
        },
    )
}

/// What is known of the contents of a file.
#[derive(Debug, PartialEq, Eq)]
pub struct Extraction {
    pub kind: String,
    pub text: Option<String>,
}

/// What an upload is answered with.
#[derive(Debug, PartialEq, Eq)]
pub struct UploadReceipt {
    pub attachment_id: String,
    pub filename: String,
    pub mime: String,
    pub kind: String,
    pub text: Option<String>,
    pub size: i64,
    pub sha256: String,
    /// The file was not stored before, and is entered now.
    pub is_new: bool,
}

/// Enters a file that was taken: bytes that were stored before keep the name
/// that they had.
pub fn finish_upload(
    upload: &StoredUpload,
    extraction: Option<Extraction>,
    existing_id: Option<String>,
    fresh_id: String,
) -> (r: UploadReceipt)
    requires
        upload.bytes@.len() <= MAX_ATTACHMENT_BYTES,
    ensures
        r.filename@ == upload.filename@,
        r.mime@ == upload.mime@,
        r.sha256@ == upload.sha256@,
        r.size == upload.bytes@.len(),
        match existing_id {
            Some(id) => r.attachment_id == id && !r.is_new,
            None => r.attachment_id == fresh_id && r.is_new,
        },
        match extraction {
            Some(found) => r.kind == found.kind && r.text == found.text,
            None => r.kind@ == "other"@ && r.text is None,
        },
{
    let (kind, text) = match extraction {
        Some(found) => (found.kind, found.text),
        None => ("other".to_owned(), None),
    };
    let (attachment_id, is_new) = match existing_id {
        Some(id) => (id, false),
        None => (fresh_id, true),
    };
    UploadReceipt {
        attachment_id,
        filename: upload.filename.clone(),
        mime: upload.mime.clone(),
        kind,
        text,
        size: upload.bytes.len() as i64,
        sha256: upload.sha256.clone(),
        is_new,
    }
}

/// How an attachment is shown.
#[derive(Debug, PartialEq, Eq)]
pub enum AttachmentView {
    /// An image, as base64.
    Data(String),
    /// The text that was read in the file, if any.
    Text(Option<String>),
}

/// Shows an attachment: an image whose bytes can be read as base64, and anything
/// else as its text.
pub fn show_attachment(mime: &str, bytes: Option<Vec<u8>>, extracted_text: Option<String>) -> (r:
    AttachmentView)
    requires
        starts_with(mime@, "image/"@) ==> (bytes matches Some(data) ==> is_encodable(data@.len())),
    ensures
        match bytes {
            Some(data) if starts_with(mime@, "image/"@) => r matches AttachmentView::Data(text)
                && text@ == base64_text(data@),
            _ => r == AttachmentView::Text(extracted_text),
        },
{
    if !attachment_mime_is_supported(mime) {
        match bytes {
            Some(data) => {
                return AttachmentView::Data(base64_encode(data.as_slice()));
            },
            None => {},
        }
    }
    AttachmentView::Text(extracted_text)
}

/// The same bytes are stored under the same digest, whatever they are called,
/// and no image is ever stored.
pub proof fn storage_goes_by_content(
    first: UploadField,
    second: UploadField,
    a: Result<StoredUpload, UploadError>,
    b: Result<StoredUpload, UploadError>,
)
    requires
        is_received(Some(first), a),
        is_received(Some(second), b),
        a is Ok,
        b is Ok,
        a->Ok_0.bytes@ == b->Ok_0.bytes@,
    ensures
        a->Ok_0.sha256@ == b->Ok_0.sha256@,
        !starts_with(a->Ok_0.mime@, "image/"@),
        0 < a->Ok_0.bytes@.len() <= MAX_ATTACHMENT_BYTES,
{
}

} // verus!
