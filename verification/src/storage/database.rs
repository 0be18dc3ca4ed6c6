//! Store handles and the error vocabulary shared by the storage adapters.
use vstd::prelude::*;

use super::records::mode_of;
use crate::domain::ConversationMode;
use crate::text::{append_str, str_is};

verus! {

/// The class of a storage failure.
#[derive(Clone, Copy, Debug, PartialEq, Eq, Structural)]
pub enum StorageErrorKind {
    Unavailable,
    InvalidData,
    NotFound,
    Conflict,
    TooManyAttachments,
    AttachmentUnreadable,
    AttachmentTooLarge,
    UnsupportedAttachment,
    AnimatedImage,
}

/// A storage failure with its class and a technical message.
#[derive(Clone, Debug, PartialEq, Eq)]
pub struct StorageError {
    pub kind: StorageErrorKind,
    pub message: String,
}

/// A storage failure of the given kind with a fixed message.
pub fn failure(kind: StorageErrorKind, message: &str) -> (e: StorageError)
    ensures
        e.kind == kind,
        e.message@ == message@,
{
    let mut text = String::new();
    append_str(&mut text, message);
    StorageError { kind, message: text }
}

/// A storage failure of the `Unavailable` class with the given message.
pub fn unavailable(message: String) -> (e: StorageError)
    ensures
        e.kind == StorageErrorKind::Unavailable,
        e.message@ == message@,
{
    StorageError { kind: StorageErrorKind::Unavailable, message }
}

/// A storage failure of the `InvalidData` class with the given message.
pub fn invalid(message: String) -> (e: StorageError)
    ensures
        e.kind == StorageErrorKind::InvalidData,
        e.message@ == message@,
{
    StorageError { kind: StorageErrorKind::InvalidData, message }
}

/// Reads the mode column of a conversation row: `chat` or `agent`; any other word is
/// invalid data whose message names it.
pub fn decode_mode(mode: &str) -> (r: Result<ConversationMode, StorageError>)
    ensures
        match mode_of(mode@) {
            Some(m) => r == Ok::<ConversationMode, StorageError>(m),
            None => r matches Err(e) && e.kind == StorageErrorKind::InvalidData
                && e.message@ == "unknown conversation mode "@ + mode@,
        },
{
    if str_is(mode, "chat") {
        Ok(ConversationMode::Chat)
    } else if str_is(mode, "agent") {
        Ok(ConversationMode::Agent)
    } else {
        let mut message = String::new();
        append_str(&mut message, "unknown conversation mode ");
        append_str(&mut message, mode);
        Err(invalid(message))
    }
}

/// The SQLite result codes that the storage classifies.
#[derive(Clone, Copy, Debug, PartialEq, Eq, Structural)]
pub enum SqliteCode {
    DatabaseCorrupt,
    NotADatabase,
    ConstraintViolation,
    Other,
}

/// What a database call failed with.
#[derive(Clone, Copy, Debug, PartialEq, Eq, Structural)]
pub enum DatabaseErrorCause {
    /// A query that had to return a row returned none.
    NoRows,
    /// A value could not be converted from its column.
    ConversionFailure,
    /// An integer did not fit its type.
    IntegralValueOutOfRange,
    /// A column had another type than the one read.
    InvalidColumnType,
    /// SQLite itself failed with this code.
    Sqlite(SqliteCode),
    Other,
}

/// The class of a database failure: a missing row is not found; unreadable values and
/// a corrupt or foreign file are invalid data; a violated constraint is a conflict;
/// anything else leaves the store unavailable.
pub open spec fn database_error_kind(cause: DatabaseErrorCause) -> StorageErrorKind {
    match cause {
        DatabaseErrorCause::NoRows => StorageErrorKind::NotFound,
        DatabaseErrorCause::ConversionFailure => StorageErrorKind::InvalidData,
        DatabaseErrorCause::IntegralValueOutOfRange => StorageErrorKind::InvalidData,
        DatabaseErrorCause::InvalidColumnType => StorageErrorKind::InvalidData,
        DatabaseErrorCause::Sqlite(SqliteCode::DatabaseCorrupt) => StorageErrorKind::InvalidData,
        DatabaseErrorCause::Sqlite(SqliteCode::NotADatabase) => StorageErrorKind::InvalidData,
        DatabaseErrorCause::Sqlite(SqliteCode::ConstraintViolation) => StorageErrorKind::Conflict,
        DatabaseErrorCause::Sqlite(SqliteCode::Other) => StorageErrorKind::Unavailable,
        DatabaseErrorCause::Other => StorageErrorKind::Unavailable,
    }
}

/// The storage failure for a database failure with the given cause and message.
pub fn database_error(cause: DatabaseErrorCause, message: String) -> (e: StorageError)
    ensures
        e.kind == database_error_kind(cause),
        e.message@ == message@,
{
    let kind = match cause {
        DatabaseErrorCause::NoRows => StorageErrorKind::NotFound,
        DatabaseErrorCause::ConversionFailure
        | DatabaseErrorCause::IntegralValueOutOfRange
        | DatabaseErrorCause::InvalidColumnType => StorageErrorKind::InvalidData,
        DatabaseErrorCause::Sqlite(code) => match code {
            SqliteCode::DatabaseCorrupt | SqliteCode::NotADatabase => StorageErrorKind::InvalidData,
            SqliteCode::ConstraintViolation => StorageErrorKind::Conflict,
            SqliteCode::Other => StorageErrorKind::Unavailable,
        },
        DatabaseErrorCause::Other => StorageErrorKind::Unavailable,
    };
    StorageError { kind, message }
}

/// The parent directory of a path, as `Path::parent` gives it.
pub uninterp spec fn parent_path(path: Seq<char>) -> Option<Seq<char>>;

/// A path with one more component, as `Path::join` gives it.
pub uninterp spec fn joined_path(base: Seq<char>, name: Seq<char>) -> Seq<char>;

/// `std::path::Path::parent` on a UTF-8 path.
#[verifier::external_body]
fn path_parent(path: &str) -> (parent: Option<String>)
    ensures
        match parent {
            Some(p) => parent_path(path@) == Some(p@),
            None => parent_path(path@) is None,
        },
{
    std::path::Path::new(path).parent().map(|p| p.to_string_lossy().into_owned())
}

/// `std::path::Path::join` on UTF-8 paths.
#[verifier::external_body]
pub(crate) fn path_join(base: &str, name: &str) -> (joined: String)
    ensures
        joined@ == joined_path(base@, name@),
{
    std::path::Path::new(base).join(name).to_string_lossy().into_owned()
}

/// Where managed attachments live: the `attachments` directory beside the database
/// file, or under the current directory when the path has no parent.
pub open spec fn attachment_directory_spec(database_path: Seq<char>) -> Seq<char> {
    match parent_path(database_path) {
        Some(parent) => joined_path(parent, "attachments"@),
        None => joined_path("."@, "attachments"@),
    }
}

/// The attachments directory that belongs to a database file.
pub fn attachment_directory(database_path: &str) -> (directory: String)
    ensures
        directory@ == attachment_directory_spec(database_path@),
{
    match path_parent(database_path) {
        Some(parent) => path_join(parent.as_str(), "attachments"),
        None => path_join(".", "attachments"),
    }
}

/// Milliseconds since the Unix epoch by the system clock, or `None` when the clock
/// reads a time before the epoch.
#[verifier::external_body]
pub(crate) fn system_millis() -> (millis: Option<u128>)
{
    std::time::SystemTime::now()
        .duration_since(std::time::UNIX_EPOCH)
        .ok()
        .map(|duration| duration.as_millis())
}

/// Turns a clock reading into a timestamp: readings before the epoch or beyond `i64`
/// are invalid data.
pub fn timestamp_from_millis(millis: Option<u128>) -> (r: Result<i64, StorageError>)
    ensures
        match millis {
            Some(m) => if m <= i64::MAX as u128 {
                r == Ok::<i64, StorageError>(m as i64)
            } else {
                r matches Err(e) && e.kind == StorageErrorKind::InvalidData
            },
            None => r matches Err(e) && e.kind == StorageErrorKind::InvalidData,
        },
{
    match millis {
        Some(m) => {
            if m <= i64::MAX as u128 {
                Ok(m as i64)
            } else {
                Err(failure(StorageErrorKind::InvalidData, "the clock reading does not fit a timestamp"))
            }
        },
        None => Err(failure(StorageErrorKind::InvalidData, "the clock reads a time before the Unix epoch")),
    }
}

/// The current time in milliseconds since the Unix epoch.
pub fn now() -> (r: Result<i64, StorageError>)
    ensures
        r matches Ok(t) ==> t >= 0,
        r matches Err(e) ==> e.kind == StorageErrorKind::InvalidData,
{
    timestamp_from_millis(system_millis())
}

/// The conversation store backed by a local SQLite file.
pub struct SqliteConversationStore {
    path: String,
    attachments_path: String,
    initialized: bool,
}

/// The conversation store backed by a local Turso file.
pub struct TursoAppStore {
    path: String,
    attachments_path: String,
    initialized: bool,
}

/// The not-yet-initialized failure shared by both stores.
pub open spec fn not_initialized(r: Result<(), StorageError>, initialized: bool) -> bool {
    if initialized {
        r is Ok
    } else {
        r matches Err(e) && e.kind == StorageErrorKind::Unavailable && e.message@
            == "storage has not been initialized"@
    }
}

impl SqliteConversationStore {
    pub closed spec fn path_view(self) -> Seq<char> {
        self.path@
    }

    pub closed spec fn attachments_view(self) -> Seq<char> {
        self.attachments_path@
    }

    pub closed spec fn initialized_view(self) -> bool {
        self.initialized
    }

    /// A store for the database at `path`; it must be initialized before use.
    pub fn new(path: String) -> (store: Self)
        ensures
            store.path_view() == path@,
            store.attachments_view() == attachment_directory_spec(path@),
            !store.initialized_view(),
    {
        let attachments_path = attachment_directory(path.as_str());
        SqliteConversationStore { path, attachments_path, initialized: false }
    }

    /// The database file.
    pub fn path(&self) -> (path: &str)
        ensures
            path@ == self.path_view(),
    {
        self.path.as_str()
    }

    /// The managed-attachments directory.
    pub fn attachments_path(&self) -> (path: &str)
        ensures
            path@ == self.attachments_view(),
    {
        self.attachments_path.as_str()
    }

    /// Records that the schema is ready.
    pub fn mark_initialized(&mut self)
        ensures
            final(self).initialized_view(),
            final(self).path_view() == old(self).path_view(),
            final(self).attachments_view() == old(self).attachments_view(),
    {
        self.initialized = true;
    }

    /// Whether the schema is ready.
    pub fn is_initialized(&self) -> (ready: bool)
        ensures
            ready == self.initialized_view(),
    {
        self.initialized
    }

    /// Refuses work before initialization.
    pub fn ensure_initialized(&self) -> (r: Result<(), StorageError>)
        ensures
            not_initialized(r, self.initialized_view()),
    {
        if self.initialized {
            Ok(())
        } else {
            Err(failure(StorageErrorKind::Unavailable, "storage has not been initialized"))
        }
    }
}

impl TursoAppStore {
    pub closed spec fn path_view(self) -> Seq<char> {
        self.path@
    }

    pub closed spec fn attachments_view(self) -> Seq<char> {
        self.attachments_path@
    }

    pub closed spec fn initialized_view(self) -> bool {
        self.initialized
    }

    /// A store for the database at `path`; it must be initialized before use.
    pub fn new(path: String) -> (store: Self)
        ensures
            store.path_view() == path@,
            store.attachments_view() == attachment_directory_spec(path@),
            !store.initialized_view(),
    {
        let attachments_path = attachment_directory(path.as_str());
        TursoAppStore { path, attachments_path, initialized: false }
    }

    /// The database file.
    pub fn path(&self) -> (path: &str)
        ensures
            path@ == self.path_view(),
    {
        self.path.as_str()
    }

    /// The managed-attachments directory.
    pub fn attachments_path(&self) -> (path: &str)
        ensures
            path@ == self.attachments_view(),
    {
        self.attachments_path.as_str()
    }

    /// Records that the schema is ready.
    pub fn mark_initialized(&mut self)
        ensures
            final(self).initialized_view(),
            final(self).path_view() == old(self).path_view(),
            final(self).attachments_view() == old(self).attachments_view(),
    {
        self.initialized = true;
    }

    /// Whether the schema is ready.
    pub fn is_initialized(&self) -> (ready: bool)
        ensures
            ready == self.initialized_view(),
    {
        self.initialized
    }

    /// Refuses work before initialization.
    pub fn ensure_initialized(&self) -> (r: Result<(), StorageError>)
        ensures
            not_initialized(r, self.initialized_view()),
    {
        if self.initialized {
            Ok(())
        } else {
            Err(failure(StorageErrorKind::Unavailable, "storage has not been initialized"))
        }
    }
}

} // verus!
