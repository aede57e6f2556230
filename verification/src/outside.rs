//! The trusted boundary to the filesystem and to the outside error types.
//!
//! Everything in this module is believed, not proved: each function's body
//! makes one call into `std` or `fs_extra` and converts its arguments and
//! result, and each doc comment names the outside function relied on. The
//! rest of the crate reaches the disk only through these items. Paths
//! follow the crate's convention: UTF-8 strings whose components are
//! separated by `/`.

use crate::error::ErrorKind;
use crate::path_stuff::join_paths;
use fs_extra::error::Error as FseError;
use std::io::Error as IoError;
use vstd::prelude::*;

verus! {

#[verifier::external_type_specification]
#[verifier::external_body]
pub struct ExFseError(FseError);

#[verifier::external_type_specification]
#[verifier::external_body]
pub struct ExIoError(IoError);

#[verifier::external_type_specification]
#[verifier::external_body]
pub struct ExDirCopyOptions(fs_extra::dir::CopyOptions);

/// Relies on std::path::Path::exists: whether an entry exists at the path
/// on disk.
#[verifier::external_body]
pub(crate) fn path_exists(path: &str) -> bool {
    std::path::Path::new(path).exists()
}

/// Relies on std::path::Path::is_file: whether the entry at the path exists
/// and is a regular file.
#[verifier::external_body]
pub(crate) fn path_is_file(path: &str) -> bool {
    std::path::Path::new(path).is_file()
}

/// Relies on fs_extra::dir::create with erase off: creates the directory at
/// the path, failing if it exists or its parent is missing.
#[verifier::external_body]
pub(crate) fn fse_create_dir(path: &str) -> Result<(), fs_extra::error::Error> {
    fs_extra::dir::create(path, false)
}

/// Relies on fs_extra::dir::create_all with erase off: creates the
/// directory at the path together with its missing parents.
#[verifier::external_body]
pub(crate) fn fse_create_dir_all(path: &str) -> Result<(), fs_extra::error::Error> {
    fs_extra::dir::create_all(path, false)
}

/// Relies on fs_extra::dir::remove: removes the directory at the path and
/// everything in it; removing a missing directory is a no-op.
#[verifier::external_body]
pub(crate) fn fse_remove_dir(path: &str) -> Result<(), fs_extra::error::Error> {
    fs_extra::dir::remove(path)
}

/// Relies on fs_extra::file::remove: removes the file at the path; removing
/// a missing file is a no-op.
#[verifier::external_body]
pub(crate) fn fse_remove_file(path: &str) -> Result<(), fs_extra::error::Error> {
    fs_extra::file::remove(path)
}

/// Relies on fs_extra::file::write_all: creates the file at the path if
/// needed and replaces its contents with the given text.
#[verifier::external_body]
pub(crate) fn fse_write_all(path: &str, content: &str) -> Result<(), fs_extra::error::Error> {
    fs_extra::file::write_all(path, content)
}

/// Relies on fs_extra::file::read_to_string: the contents of the file at
/// the path, as text.
#[verifier::external_body]
pub(crate) fn fse_read_to_string(path: &str) -> Result<String, fs_extra::error::Error> {
    fs_extra::file::read_to_string(path)
}

/// Relies on fs_extra::dir::get_size: the size in bytes of the file, or of
/// every file under the directory, at the path.
#[verifier::external_body]
pub(crate) fn fse_get_size(path: &str) -> Result<u64, fs_extra::error::Error> {
    fs_extra::dir::get_size(path)
}

/// Relies on fs_extra::file::move_file with default options: moves the file
/// at `from` to `to`, failing if `to` already exists.
#[verifier::external_body]
pub(crate) fn fse_move_file(from: &str, to: &str) -> Result<u64, fs_extra::error::Error> {
    fs_extra::file::move_file(from, to, &fs_extra::file::CopyOptions::new())
}

/// Relies on fs_extra::file::copy with overwrite on: copies the file at
/// `from` to `to`, replacing an existing `to`.
#[verifier::external_body]
pub(crate) fn fse_copy_file(from: &str, to: &str) -> Result<u64, fs_extra::error::Error> {
    fs_extra::file::copy(from, to, &fs_extra::file::CopyOptions::new().overwrite(true))
}

/// Relies on fs_extra::dir::copy: recursively copies the directory at
/// `from` into `to` under the given options.
#[verifier::external_body]
pub(crate) fn fse_copy_dir(from: &str, to: &str, options: &fs_extra::dir::CopyOptions) -> Result<
    u64,
    fs_extra::error::Error,
> {
    fs_extra::dir::copy(from, to, options)
}

/// Relies on fs_extra::dir::move_dir: moves the directory at `from` into
/// `to` under the given options.
#[verifier::external_body]
pub(crate) fn fse_move_dir(from: &str, to: &str, options: &fs_extra::dir::CopyOptions) -> Result<
    u64,
    fs_extra::error::Error,
> {
    fs_extra::dir::move_dir(from, to, options)
}

/// Whether `entry` is the path of a direct child of `root`: `root` joined
/// with a non-empty entry name that holds no path separator.
pub open spec fn is_child_path(root: Seq<char>, entry: Seq<char>) -> bool {
    exists|n: Seq<char>|
        n.len() > 0 && !n.contains('/') && entry == #[trigger] join_paths(root, n)
}

/// What a one-level directory listing returns: every listed directory path
/// is the queried path itself or a direct child of it, and every listed
/// file path is a direct child of it, unless the queried path is itself a
/// file, in which case it is listed alone under the files.
pub open spec fn listing_of(root: Seq<char>, dirs: Seq<Seq<char>>, files: Seq<Seq<char>>) -> bool {
    &&& forall|i: int| 0 <= i < dirs.len() ==> dirs[i] == root || is_child_path(root, #[trigger] dirs[i])
    &&& forall|i: int| 0 <= i < files.len() ==> files[i] == root || is_child_path(root, #[trigger] files[i])
}

/// Relies on fs_extra::dir::get_dir_content2 at depth one: the returned
/// content lists the queried directory itself among the directory paths and
/// its direct children after it, each child path being the queried path
/// joined with the child's file name; a queried file is listed alone among
/// the file paths.
#[verifier::external_body]
pub(crate) fn fse_list_dir(path: &str) -> (r: Result<
    (Vec<String>, Vec<String>),
    fs_extra::error::Error,
>)
    ensures
        r matches Ok(c) ==> listing_of(path@, c.0.deep_view(), c.1.deep_view()),
{
    let mut options = fs_extra::dir::DirOptions::new();
    options.depth = 1;
    let content = fs_extra::dir::get_dir_content2(path, &options)?;
    Ok((content.directories, content.files))
}

/// Relies on std::io::Error::kind: tells the error's class apart, mapping
/// each recognized class to the crate's own kind.
#[verifier::external_body]
pub(crate) fn io_error_class(e: &std::io::Error) -> ErrorKind {
    match e.kind() {
        std::io::ErrorKind::NotFound => ErrorKind::NotFound,
        std::io::ErrorKind::PermissionDenied => ErrorKind::PermissionDenied,
        std::io::ErrorKind::AlreadyExists => ErrorKind::AlreadyExists,
        std::io::ErrorKind::Interrupted => ErrorKind::Interrupted,
        _ => ErrorKind::Other,
    }
}

/// Relies on the Display impl of std::io::Error: the error's message text.
#[verifier::external_body]
pub(crate) fn io_error_text(e: &std::io::Error) -> String {
    e.to_string()
}

/// Relies on fs_extra::error::Error: its public kind field tells the
/// error's class apart; an Io kind is classified by the std::io::Error it
/// carries.
#[verifier::external_body]
pub(crate) fn fse_error_class(e: &fs_extra::error::Error) -> ErrorKind {
    match &e.kind {
        fs_extra::error::ErrorKind::NotFound => ErrorKind::NotFound,
        fs_extra::error::ErrorKind::PermissionDenied => ErrorKind::PermissionDenied,
        fs_extra::error::ErrorKind::AlreadyExists => ErrorKind::AlreadyExists,
        fs_extra::error::ErrorKind::Interrupted => ErrorKind::Interrupted,
        fs_extra::error::ErrorKind::InvalidFolder => ErrorKind::InvalidFolder,
        fs_extra::error::ErrorKind::InvalidFile => ErrorKind::InvalidFile,
        fs_extra::error::ErrorKind::InvalidFileName => ErrorKind::InvalidFileName,
        fs_extra::error::ErrorKind::InvalidPath => ErrorKind::InvalidPath,
        fs_extra::error::ErrorKind::Io(io) => io_error_class(io),
        _ => ErrorKind::Other,
    }
}

/// Relies on the Display impl of fs_extra::error::Error: the error's
/// message text.
#[verifier::external_body]
pub(crate) fn fse_error_text(e: &fs_extra::error::Error) -> String {
    e.to_string()
}

} // verus!
