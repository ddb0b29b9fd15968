//! Error taxonomy of the coordination layer. Every failure carries a stable
//! machine-readable code: 104 marks a missing entity or parent (not found),
//! 102 a blob-store failure, and 1 a generic store or decode failure.

use vstd::prelude::*;

verus! {

use vstd::string::StringExecFns;

/// Code of a `NotFound`-class failure: the target entity or the referenced
/// parent is absent.
pub const CODE_NOT_FOUND: u32 = 104;

/// Code of a blob-store failure.
pub const CODE_STORAGE: u32 = 102;

/// Code of a generic store, decode or parse failure.
pub const CODE_GENERIC: u32 = 1;

/// The coordinator-level error every failure is mapped to before it reaches
/// a caller.
#[derive(Debug)]
pub struct CommonError {
    pub message: String,
    pub description: String,
    pub code: u32,
}

/// A failure reported by the metadata repository.
#[derive(Debug)]
pub struct RepositoryError {
    pub message: String,
    pub description: String,
    pub code: u32,
}

/// A failure reported by the blob store adapter.
#[derive(Debug)]
pub struct StorageError {
    pub message: String,
    pub description: String,
    pub code: u32,
}

impl From<RepositoryError> for CommonError {
    fn from(error: RepositoryError) -> (r: CommonError) {
        CommonError { message: error.message, description: error.description, code: error.code }
    }
}

impl vstd::std_specs::convert::FromSpecImpl<RepositoryError> for CommonError {
    open spec fn obeys_from_spec() -> bool {
        true
    }

    open spec fn from_spec(t: RepositoryError) -> CommonError {
        CommonError { message: t.message, description: t.description, code: t.code }
    }
}

impl From<StorageError> for CommonError {
    fn from(error: StorageError) -> (r: CommonError) {
        CommonError { message: error.message, description: error.description, code: error.code }
    }
}

impl vstd::std_specs::convert::FromSpecImpl<StorageError> for CommonError {
    open spec fn obeys_from_spec() -> bool {
        true
    }

    open spec fn from_spec(t: StorageError) -> CommonError {
        CommonError { message: t.message, description: t.description, code: t.code }
    }
}

/// The error a transport adapter reports: a `CommonError` together with the
/// HTTP status it maps to.
#[derive(Debug)]
pub struct ApiError(pub CommonError);

impl ApiError {
    pub closed spec fn view(&self) -> CommonError {
        self.0
    }

    /// The HTTP status of the wrapped failure: 500 for a blob-store failure,
    /// 404 for a missing entity, 400 for everything else.
    pub fn status_code(&self) -> (r: u16)
        ensures
            r == (if self@.code == CODE_STORAGE {
                500u16
            } else if self@.code == CODE_NOT_FOUND {
                404u16
            } else {
                400u16
            }),
    {
        match self.0.code {
            102 => 500,
            104 => 404,
            _ => 400,
        }
    }
}

impl From<CommonError> for ApiError {
    fn from(error: CommonError) -> (r: ApiError) {
        ApiError(error)
    }
}

impl vstd::std_specs::convert::FromSpecImpl<CommonError> for ApiError {
    open spec fn obeys_from_spec() -> bool {
        true
    }

    open spec fn from_spec(t: CommonError) -> ApiError {
        ApiError(t)
    }
}

/// A metadata-store failure, wrapped for conversion into `RepositoryError`.
pub struct ScyllaRepositoryError(RepositoryError);

impl ScyllaRepositoryError {
    pub closed spec fn view(&self) -> RepositoryError {
        self.0
    }

    pub fn new(message: &str, description: &str, code: u32) -> (r: ScyllaRepositoryError)
        ensures
            r@.message@ == message@,
            r@.description@ == description@,
            r@.code == code,
    {
        ScyllaRepositoryError(
            RepositoryError {
                message: message.to_owned(),
                description: description.to_owned(),
                code,
            },
        )
    }

    pub fn into_inner(self) -> (r: RepositoryError)
        ensures
            r == self@,
    {
        self.0
    }
}

/// A blob-store failure, wrapped for conversion into `StorageError`.
#[derive(Debug)]
pub struct S3StorageError(StorageError);

impl S3StorageError {
    pub closed spec fn view(&self) -> StorageError {
        self.0
    }

    pub fn new(message: &str, description: &str, code: u32) -> (r: S3StorageError)
        ensures
            r@.message@ == message@,
            r@.description@ == description@,
            r@.code == code,
    {
        S3StorageError(
            StorageError { message: message.to_owned(), description: description.to_owned(), code },
        )
    }

    pub fn into_inner(self) -> (r: StorageError)
        ensures
            r == self@,
    {
        self.0
    }
}

/// A malformed pagination cursor, refused before any query is issued.
pub struct DecodeError(RepositoryError);

impl DecodeError {
    pub closed spec fn view(&self) -> RepositoryError {
        self.0
    }

    pub fn new(message: &str) -> (r: DecodeError)
        ensures
            r@.message@ == message@,
            r@.description@ == "base64 parsing error"@,
            r@.code == 1,
    {
        DecodeError(
            RepositoryError {
                message: message.to_owned(),
                description: "base64 parsing error".to_owned(),
                code: 1,
            },
        )
    }

    pub fn into_inner(self) -> (r: RepositoryError)
        ensures
            r == self@,
    {
        self.0
    }
}

/// A malformed inbound request, refused by the transport layer before it
/// reaches the coordination core.
#[derive(Debug)]
pub enum HttpError {
    Json(String),
    Query(String),
    Path(String),
}

impl HttpError {
    /// The HTTP status every malformed request maps to.
    pub fn status_code(&self) -> (r: u16)
        ensures
            r == 400,
    {
        match self {
            HttpError::Json(_) => 400,
            HttpError::Query(_) => 400,
            HttpError::Path(_) => 400,
        }
    }

    /// The structured body a transport adapter serializes for a malformed
    /// request: a fixed message and code per variant, and a description
    /// carrying the parser's own words.
    pub fn to_common(&self) -> (r: CommonError)
        ensures
            match self {
                HttpError::Json(s) => r.message@ == "The request body contains invalid JSON"@
                    && r.description@ == "Deserialization error: "@ + s@ && r.code == 50109,
                HttpError::Query(s) => r.message@ == "The request query parameters are invalid"@
                    && r.description@ == "Query parsing error: "@ + s@ && r.code == 50110,
                HttpError::Path(s) => r.message@ == "The request path are invalid"@
                    && r.description@ == "Path parsing error: "@ + s@ && r.code == 50111,
            },
    {
        match self {
            HttpError::Json(s) => CommonError {
                message: "The request body contains invalid JSON".to_owned(),
                description: String::from_str("Deserialization error: ").concat(s.as_str()),
                code: 50109,
            },
            HttpError::Query(s) => CommonError {
                message: "The request query parameters are invalid".to_owned(),
                description: String::from_str("Query parsing error: ").concat(s.as_str()),
                code: 50110,
            },
            HttpError::Path(s) => CommonError {
                message: "The request path are invalid".to_owned(),
                description: String::from_str("Path parsing error: ").concat(s.as_str()),
                code: 50111,
            },
        }
    }
}

} // verus!
