//! Access to the ZIP container of an EPUB, through the `zip` crate.
use vstd::prelude::*;
use vstd::utf8::{decode_utf8, valid_utf8};
use vstd::string::StringExecFns;
use crate::formatter::opt_string_view;

verus! {

/// Why an EPUB could not be read.
#[derive(Debug, PartialEq, Eq)]
pub enum EpubError {
    /// The bytes are not a ZIP archive.
    NotZip,
    /// The archive has no entry of this name.
    EntryNotFound(String),
    /// The entry exists but its data could not be read (corrupt or unsupported).
    EntryUnreadable(String),
    /// `container.xml` names no OPF package document.
    OpfPathNotFound,
    /// An attribute value holds an escape sequence that cannot be expanded.
    BadAttribute,
}

/// The mathematical value of an [`EpubError`].
pub enum EpubErrorView {
    NotZip,
    EntryNotFound(Seq<char>),
    EntryUnreadable(Seq<char>),
    OpfPathNotFound,
    BadAttribute,
}

impl View for EpubError {
    type V = EpubErrorView;

    open spec fn view(&self) -> EpubErrorView {
        match self {
            EpubError::NotZip => EpubErrorView::NotZip,
            EpubError::EntryNotFound(n) => EpubErrorView::EntryNotFound(n@),
            EpubError::EntryUnreadable(n) => EpubErrorView::EntryUnreadable(n@),
            EpubError::OpfPathNotFound => EpubErrorView::OpfPathNotFound,
            EpubError::BadAttribute => EpubErrorView::BadAttribute,
        }
    }
}

/// Why an entry could not be taken out of the archive.
#[derive(Debug, Clone, Copy, PartialEq, Eq, Structural)]
pub enum EntryError {
    /// The bytes are not a ZIP archive.
    NotArchive,
    /// The archive has no entry of that name.
    Missing,
    /// Reading the entry's data failed.
    Unreadable,
}

/// The data of the named entry as `zip` reads it, or why it could not.
pub uninterp spec fn zip_entry(archive: Seq<u8>, name: Seq<char>) -> Result<Seq<u8>, EntryError>;

/// The text `String::from_utf8_lossy` makes of the bytes.
pub uninterp spec fn utf8_lossy(bytes: Seq<u8>) -> Seq<char>;

/// The English name of the language `whatlang::detect` finds in the text, if any.
pub uninterp spec fn detected_language(text: Seq<char>) -> Option<Seq<char>>;

/// The view of an entry read.
pub open spec fn entry_view(r: Result<Vec<u8>, EntryError>) -> Result<Seq<u8>, EntryError> {
    match r {
        Ok(b) => Ok(b@),
        Err(e) => Err(e),
    }
}

/// Opens the archive with `zip::ZipArchive::new` (over a `Cursor` of the
/// bytes), looks the entry up with `by_name` and reads it to the end.  A failure
/// to open is `NotArchive`, to find the entry `Missing`, to read it `Unreadable`.
/// The contract only names the result.
#[verifier::external_body]
pub(crate) fn zip_entry_bytes(archive: &[u8], name: &str) -> (r: Result<Vec<u8>, EntryError>)
    ensures
        entry_view(r) == zip_entry(archive@, name@),
{
    let Ok(mut zip) = zip::ZipArchive::new(std::io::Cursor::new(archive)) else { return Err(EntryError::NotArchive) };
    let Ok(mut entry) = zip.by_name(name) else { return Err(EntryError::Missing) };
    let mut bytes = Vec::new();
    match std::io::Read::read_to_end(&mut entry, &mut bytes) {
        Ok(_) => Ok(bytes),
        Err(_) => Err(EntryError::Unreadable),
    }
}

/// `String::from_utf8_lossy`: the text of the bytes, with each invalid sequence
/// replaced by U+FFFD.  The contract names the result and states what the
/// documentation promises of valid UTF-8: it is decoded unchanged.
#[verifier::external_body]
pub(crate) fn string_from_utf8_lossy(bytes: &[u8]) -> (s: String)
    ensures
        s@ == utf8_lossy(bytes@),
        valid_utf8(bytes@) ==> s@ == decode_utf8(bytes@),
{
    String::from_utf8_lossy(bytes).into_owned()
}

/// `whatlang::detect` on the text, giving the English name of the detected
/// language.  The contract only names the result.
#[verifier::external_body]
pub(crate) fn detect_language(text: &str) -> (lang: Option<String>)
    ensures
        opt_string_view(lang) == detected_language(text@),
{
    match whatlang::detect(text) {
        Some(info) => Some(info.lang().eng_name().to_string()),
        None => None,
    }
}

/// The text of an entry, or the error naming it.
pub open spec fn read_entry_spec(archive: Seq<u8>, name: Seq<char>) -> Result<Seq<char>, EpubErrorView> {
    match zip_entry(archive, name) {
        Ok(b) => Ok(utf8_lossy(b)),
        Err(EntryError::NotArchive) => Err(EpubErrorView::NotZip),
        Err(EntryError::Missing) => Err(EpubErrorView::EntryNotFound(name)),
        Err(EntryError::Unreadable) => Err(EpubErrorView::EntryUnreadable(name)),
    }
}

/// The view of a text-or-error result.
pub open spec fn text_result_view(r: Result<String, EpubError>) -> Result<Seq<char>, EpubErrorView> {
    match r {
        Ok(s) => Ok(s@),
        Err(e) => Err(e@),
    }
}

/// The named entry of the archive as text (invalid UTF-8 replaced).
pub fn read_zip_entry(archive: &[u8], name: &str) -> (r: Result<String, EpubError>)
    ensures
        text_result_view(r) == read_entry_spec(archive@, name@),
{
    match zip_entry_bytes(archive, name) {
        Ok(bytes) => Ok(string_from_utf8_lossy(bytes.as_slice())),
        Err(EntryError::NotArchive) => Err(EpubError::NotZip),
        Err(EntryError::Missing) => Err(EpubError::EntryNotFound(String::from_str(name))),
        Err(EntryError::Unreadable) => Err(EpubError::EntryUnreadable(String::from_str(name))),
    }
}

} // verus!
