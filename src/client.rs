//! Decisions of the storage client: entry metadata into listing items, backend
//! failures into errors, and where an upload lands.

use crate::config::opt_text;
use vstd::prelude::*;

verus! {

/// What a remote path is, as the backend reports it.
#[derive(Debug, Clone, Copy, PartialEq, Eq, Structural)]
pub enum EntryKind {
    File,
    Dir,
    Unknown,
}

/// The metadata of a remote path that the client reads.
#[derive(Debug, Clone)]
pub struct EntryMeta {
    pub kind: EntryKind,
    pub content_type: Option<String>,
    pub content_length: u64,
}

/// A listing item: name, content type, length (files only) and kind.
#[derive(Debug, Clone)]
pub struct StatEntry {
    pub path: String,
    pub content_type: String,
    pub content_length: Option<u64>,
    pub entry_type: EntryKind,
}

/// The plain values of a listing item.
pub type StatView = (Seq<char>, Seq<char>, Option<u64>, EntryKind);

impl View for StatEntry {
    type V = StatView;

    open spec fn view(&self) -> StatView {
        (self.path@, self.content_type@, self.content_length, self.entry_type)
    }
}

/// The listing item for `path` with metadata `m`, for a file or a directory: the
/// content type defaults to empty, and a directory has no length.
pub open spec fn entry_of(path: Seq<char>, m: EntryMeta) -> StatView {
    (
        path,
        match opt_text(m.content_type) {
            Some(t) => t,
            None => Seq::empty(),
        },
        if m.kind == EntryKind::File {
            Some(m.content_length)
        } else {
            None
        },
        m.kind,
    )
}

/// Failures of the storage client.
#[derive(Debug, Clone, PartialEq, Eq)]
pub enum ClientError {
    /// The backend could not be built from the profile.
    Initialization(String),
    /// A backend failure with no handling of its own.
    Unhandled(String),
    /// The backend reports the path as neither a file nor a directory.
    StatUnknownMode(String),
    /// The listed path is not a directory.
    ListNotDirectory(String),
    /// The metadata of a path could not be read: the path and the cause.
    ListMetadata(String, String),
    /// The download failed.
    Download(String),
    /// The local path to upload has no file name.
    UploadInvalidFilePath(String),
    /// The local file to upload could not be opened.
    UploadFileNotFound(String),
    /// The local file to upload could not be read: the path and the cause.
    UploadLoad(String, String),
    /// The remote write failed: the destination and the cause.
    UploadWrite(String, String),
    /// The removal failed.
    Delete { path: String, error: String },
}

fn content_type_or_empty(t: &Option<String>) -> (r: String)
    ensures
        r@ == match opt_text(*t) {
            Some(x) => x,
            None => Seq::<char>::empty(),
        },
{
    match t {
        Some(x) => x.clone(),
        None => String::new(),
    }
}

/// The listing item for a file or a directory; `None` for an entry of unknown kind.
pub fn entry_from_meta(path: &str, meta: &EntryMeta) -> (r: Option<StatEntry>)
    ensures
        meta.kind == EntryKind::Unknown <==> r is None,
        r matches Some(e) ==> e@ == entry_of(path@, *meta),
{
    match meta.kind {
        EntryKind::Unknown => None,
        EntryKind::File => Some(
            StatEntry {
                path: path.to_owned(),
                content_type: content_type_or_empty(&meta.content_type),
                content_length: Some(meta.content_length),
                entry_type: EntryKind::File,
            },
        ),
        EntryKind::Dir => Some(
            StatEntry {
                path: path.to_owned(),
                content_type: content_type_or_empty(&meta.content_type),
                content_length: None,
                entry_type: EntryKind::Dir,
            },
        ),
    }
}

/// The result of a single metadata fetch on `path`: a failed fetch is a metadata
/// error, an entry that is neither file nor directory is an unknown-mode error and
/// gives no item.
pub fn stat_entry(path: &str, meta: Result<EntryMeta, String>) -> (r: Result<StatEntry, ClientError>)
    ensures
        meta matches Err(cause) ==> (r matches Err(ClientError::ListMetadata(p, c)) && p@ == path@
            && c == cause),
        meta matches Ok(m) ==> (m.kind == EntryKind::Unknown <==> r is Err),
        meta matches Ok(m) ==> (m.kind == EntryKind::Unknown ==> (r matches Err(
            ClientError::StatUnknownMode(p),
        ) && p@ == path@)),
        meta matches Ok(m) ==> (r matches Ok(e) ==> e@ == entry_of(path@, m)),
{
    match meta {
        Err(cause) => Err(ClientError::ListMetadata(path.to_owned(), cause)),
        Ok(m) => match entry_from_meta(path, &m) {
            Some(e) => Ok(e),
            None => Err(ClientError::StatUnknownMode(path.to_owned())),
        },
    }
}

/// Why the backend refused to list a path.
#[derive(Debug, Clone, PartialEq, Eq)]
pub enum ListFailure {
    NotADirectory,
    Other(String),
}

/// The client error for a refused listing of `path`.
pub fn list_error(path: &str, failure: ListFailure) -> (r: ClientError)
    ensures
        failure == ListFailure::NotADirectory ==> (r matches ClientError::ListNotDirectory(p)
            && p@ == path@),
        failure matches ListFailure::Other(m) ==> r == ClientError::Unhandled(m),
{
    match failure {
        ListFailure::NotADirectory => ClientError::ListNotDirectory(path.to_owned()),
        ListFailure::Other(m) => ClientError::Unhandled(m),
    }
}

/// The final component of a local path, as `Path::file_name` reads it.
pub uninterp spec fn file_name_of(path: Seq<char>) -> Option<Seq<char>>;

/// A base path with a component pushed onto it, as `Path::join` builds it.
pub uninterp spec fn path_join_of(base: Seq<char>, name: Seq<char>) -> Seq<char>;

/// Relies on `std::path::Path::file_name`: the final component of the path, if there
/// is one; it depends on the path alone.
#[verifier::external_body]
fn file_name(path: &str) -> (r: Option<String>)
    ensures
        r is Some <==> file_name_of(path@) is Some,
        r matches Some(n) ==> file_name_of(path@) == Some(n@),
{
    std::path::Path::new(path).file_name().map(|n| n.to_string_lossy().into_owned())
}

/// Relies on `std::path::Path::join`: `name` pushed onto `base`; it depends on the two
/// texts alone.
#[verifier::external_body]
pub(crate) fn join_path(base: &str, name: &str) -> (r: String)
    ensures
        r@ == path_join_of(base@, name@),
{
    std::path::Path::new(base).join(name).to_string_lossy().into_owned()
}

/// Where an upload of the local file `src` lands under the remote directory `dest`:
/// the file name of `src` pushed onto `dest`. Any file name that `dest` itself ends
/// with is not looked at.
pub fn upload_target(src: &str, dest: &str) -> (r: Result<String, ClientError>)
    ensures
        file_name_of(src@) is None ==> (r matches Err(ClientError::UploadInvalidFilePath(p))
            && p@ == src@),
        file_name_of(src@) matches Some(n) ==> (r matches Ok(t) && t@ == path_join_of(dest@, n)),
{
    match file_name(src) {
        Some(name) => Ok(join_path(dest, name.as_str())),
        None => Err(ClientError::UploadInvalidFilePath(src.to_owned())),
    }
}

} // verus!
