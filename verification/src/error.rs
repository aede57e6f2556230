//! Error kinds and the error value used throughout the crate.

use vstd::prelude::*;

verus! {

/// A list specifying general categories of error.
#[derive(Clone, Copy, Debug, PartialEq, Eq, Structural)]
pub enum ErrorKind {
    /// An entity was not found.
    NotFound,
    /// The operation lacked the necessary privileges to complete.
    PermissionDenied,
    /// An entity already exists.
    AlreadyExists,
    /// The operation was interrupted.
    Interrupted,
    /// A directory was found where none was allowed, or a path that should
    /// name a directory names something else.
    InvalidFolder,
    /// A file was found that breaks a rule, or a path that should name a
    /// file names something else.
    InvalidFile,
    /// A file or entry name breaks the naming rules.
    InvalidFileName,
    /// The path itself is invalid.
    InvalidPath,
    /// A path could not be converted to a text string.
    PathToStrConversionFail,
    /// The path has no parent directory.
    PathNoParentFound,
    /// The path has no file name.
    PathNoFilenameFound,
    /// The path has no file extension.
    PathNoExtensionFound,
    /// Any other error.
    Other,
}

/// The default human-readable message attached to each error kind.
pub open spec fn kind_default_msg(kind: ErrorKind) -> Seq<char> {
    match kind {
        ErrorKind::NotFound => "entity not found"@,
        ErrorKind::PermissionDenied => "permission denied"@,
        ErrorKind::AlreadyExists => "entity already exists"@,
        ErrorKind::Interrupted => "operation interrupted"@,
        ErrorKind::InvalidFolder => "the folder is invalid"@,
        ErrorKind::InvalidFile => "the file is invalid"@,
        ErrorKind::InvalidFileName => "invalid file name error"@,
        ErrorKind::InvalidPath => "invalid path"@,
        ErrorKind::PathToStrConversionFail => "path cannot be converted to utf-8 string (&str)"@,
        ErrorKind::PathNoParentFound => "cannot find any parent directory"@,
        ErrorKind::PathNoFilenameFound => "cannot find filename"@,
        ErrorKind::PathNoExtensionFound => "cannot find file extension"@,
        ErrorKind::Other => "other os error"@,
    }
}

/// The mathematical value of an [`Error`]: its kind, its message and the
/// path of the offending entry, if one is attached.
pub struct ErrorModel {
    pub kind: ErrorKind,
    pub message: Seq<char>,
    pub path: Option<Seq<char>>,
}

/// Any kind of error reported by this crate.
#[derive(Debug)]
pub struct Error {
    /// The kind of the error.
    pub kind: ErrorKind,
    /// The human-readable message.
    pub message: String,
    /// The path of the entry the error is about, when one is known.
    pub path: Option<String>,
}

impl View for Error {
    type V = ErrorModel;

    open spec fn view(&self) -> ErrorModel {
        ErrorModel {
            kind: self.kind,
            message: self.message@,
            path: match self.path {
                Some(p) => Some(p@),
                None => None,
            },
        }
    }
}

impl Error {
    /// Create a new error from a kind and a message.
    pub fn new(kind: ErrorKind, message: &str) -> (r: Error)
        ensures
            r@ == (ErrorModel { kind, message: message@, path: None }),
    {
        Error { kind, message: message.to_owned(), path: None }
    }

    /// Create a new error from a kind and an owned message.
    pub fn new2(kind: ErrorKind, message: String) -> (r: Error)
        ensures
            r@ == (ErrorModel { kind, message: message@, path: None }),
    {
        Error { kind, message, path: None }
    }

    /// Create a new error from a kind alone, with that kind's default message.
    pub fn new_from_kind(kind: ErrorKind) -> (r: Error)
        ensures
            r@ == (ErrorModel { kind, message: kind_default_msg(kind), path: None }),
    {
        let message = match kind {
            ErrorKind::NotFound => "entity not found",
            ErrorKind::PermissionDenied => "permission denied",
            ErrorKind::AlreadyExists => "entity already exists",
            ErrorKind::Interrupted => "operation interrupted",
            ErrorKind::InvalidFolder => "the folder is invalid",
            ErrorKind::InvalidFile => "the file is invalid",
            ErrorKind::InvalidFileName => "invalid file name error",
            ErrorKind::InvalidPath => "invalid path",
            ErrorKind::PathToStrConversionFail => "path cannot be converted to utf-8 string (&str)",
            ErrorKind::PathNoParentFound => "cannot find any parent directory",
            ErrorKind::PathNoFilenameFound => "cannot find filename",
            ErrorKind::PathNoExtensionFound => "cannot find file extension",
            ErrorKind::Other => "other os error",
        };
        Error { kind, message: message.to_owned(), path: None }
    }

    /// Convert a std::io::Error to this crate's error, keeping its class
    /// and its message text.
    pub fn from_io(io_err: std::io::Error) -> (r: Error)
        ensures
            r@.path is None,
    {
        let kind = crate::outside::io_error_class(&io_err);
        let message = crate::outside::io_error_text(&io_err);
        Error { kind, message, path: None }
    }

    /// Convert an fs_extra::error::Error to this crate's error, keeping its
    /// class and its message text.
    pub fn from_fse_error(fse_error: fs_extra::error::Error) -> (r: Error)
        ensures
            r@.path is None,
    {
        let kind = crate::outside::fse_error_class(&fse_error);
        let message = crate::outside::fse_error_text(&fse_error);
        Error { kind, message, path: None }
    }

    /// Attach the path of the offending entry to the error.
    pub fn set_path(self, path: String) -> (r: Error)
        ensures
            r@ == (ErrorModel { kind: self@.kind, message: self@.message, path: Some(path@) }),
    {
        Error { kind: self.kind, message: self.message, path: Some(path) }
    }
}

/// Convert an fs_extra result to this crate's result, converting the error
/// through [`Error::from_fse_error`].
pub fn result_from_fse<T>(fse_res: Result<T, fs_extra::error::Error>) -> (r: Result<T, Error>)
    ensures
        match fse_res {
            Ok(v) => r == Ok::<T, Error>(v),
            Err(_) => r matches Err(e) && e@.path is None,
        },
{
    match fse_res {
        Ok(val) => Ok(val),
        Err(e) => Err(Error::from_fse_error(e)),
    }
}

/// Convert a std::io result to this crate's result, converting the error
/// through [`Error::from_io`].
pub fn result_from_io<T>(io_res: Result<T, std::io::Error>) -> (r: Result<T, Error>)
    ensures
        match io_res {
            Ok(v) => r == Ok::<T, Error>(v),
            Err(_) => r matches Err(e) && e@.path is None,
        },
{
    match io_res {
        Ok(val) => Ok(val),
        Err(e) => Err(Error::from_io(e)),
    }
}

/// Convert an `Option` to a `Result`, using the given error when the value
/// is absent.
pub fn result_from_option<T>(maybe_val: Option<T>, err: Error) -> (r: Result<T, Error>)
    ensures
        match maybe_val {
            Some(v) => r == Ok::<T, Error>(v),
            None => r == Err::<T, Error>(err),
        },
{
    if let Some(val) = maybe_val {
        Ok(val)
    } else {
        Err(err)
    }
}

/// Convert an `Option` to a `Result`, using the given kind's default error
/// when the value is absent.
pub fn result_from_option2<T>(maybe_val: Option<T>, kind: ErrorKind) -> (r: Result<T, Error>)
    ensures
        match maybe_val {
            Some(v) => r == Ok::<T, Error>(v),
            None => r matches Err(e) && e@ == (ErrorModel {
                kind,
                message: kind_default_msg(kind),
                path: None,
            }),
        },
{
    if let Some(val) = maybe_val {
        Ok(val)
    } else {
        Err(Error::new_from_kind(kind))
    }
}

} // verus!
