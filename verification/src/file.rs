//! The [`File`] handle: a path expected to name a regular file, with
//! operations on that file.

use crate::error::Error;
use crate::error::ErrorKind;
use crate::error::result_from_fse;
use crate::outside;
use crate::path_stuff;
use crate::path_stuff::ParsedPathFile;
use crate::path_stuff::default_error;
use crate::path_stuff::extension_of;
use crate::path_stuff::join_paths;
use crate::path_stuff::name_of;
use crate::path_stuff::name_without_ext_of;
use crate::path_stuff::parent_of;
use vstd::prelude::*;

verus! {

/// A handle on a file path.
#[derive(Debug, Clone)]
pub struct File {
    /// The path of the file.
    pub path: String,
}

impl File {
    /// Create a new file handle for the path. Fails when the path names an
    /// existing entry that is not a regular file.
    pub fn new(path: &str) -> (r: Result<File, Error>)
        ensures
            r matches Ok(f) ==> f.path@ == path@,
            r matches Err(e) ==> e@.kind == ErrorKind::InvalidFile && e@.message
                == "path suppose to be file found folder"@ && e@.path is None,
    {
        if outside::path_exists(path) && !outside::path_is_file(path) {
            Err(Error::new(ErrorKind::InvalidFile, "path suppose to be file found folder"))
        } else {
            Ok(File { path: path.to_owned() })
        }
    }

    /// The parent directory of the file's path.
    pub fn parent(&self) -> (r: Result<&str, Error>)
        ensures
            match r {
                Ok(p) => parent_of(self.path@) == Some(p@),
                Err(e) => parent_of(self.path@) is None && e@ == default_error(
                    ErrorKind::PathNoParentFound,
                ),
            },
    {
        path_stuff::parent(self.path.as_str())
    }

    /// The file name of the file (including the extension).
    pub fn name(&self) -> (r: Result<&str, Error>)
        ensures
            match r {
                Ok(n) => n@ == name_of(self.path@) && name_of(self.path@).len() > 0,
                Err(e) => name_of(self.path@).len() == 0 && e@ == default_error(
                    ErrorKind::PathNoFilenameFound,
                ),
            },
    {
        path_stuff::name(self.path.as_str())
    }

    /// The file name of the file (excluding the extension).
    pub fn name_without_extension(&self) -> (r: Result<&str, Error>)
        ensures
            match r {
                Ok(n) => n@ == name_without_ext_of(self.path@) && name_of(self.path@).len() > 0,
                Err(e) => name_of(self.path@).len() == 0 && e@ == default_error(
                    ErrorKind::PathNoFilenameFound,
                ),
            },
    {
        path_stuff::name_without_extension(self.path.as_str())
    }

    /// The extension of the file.
    pub fn extension(&self) -> (r: Result<&str, Error>)
        ensures
            match r {
                Ok(e) => extension_of(self.path@) == Some(e@),
                Err(e) => extension_of(self.path@) is None && e@ == default_error(
                    ErrorKind::PathNoExtensionFound,
                ),
            },
    {
        path_stuff::extension(self.path.as_str())
    }

    /// Parse the file's path into its pieces.
    pub fn parse_path(&self) -> (r: Result<ParsedPathFile<'_>, Error>)
        ensures
            match r {
                Ok(pp) => {
                    &&& pp.path@ == self.path@
                    &&& parent_of(self.path@) == Some(pp.parent@)
                    &&& pp.name@ == name_of(self.path@)
                    &&& pp.name_without_extension@ == name_without_ext_of(self.path@)
                    &&& match extension_of(self.path@) {
                        Some(e) => pp.extension@ == e,
                        None => pp.extension@.len() == 0,
                    }
                },
                Err(_) => parent_of(self.path@) is None || name_of(self.path@).len() == 0,
            },
    {
        path_stuff::parse_path_file(self.path.as_str())
    }

    /// The size of the file in bytes.
    pub fn size(&self) -> (r: Result<u64, Error>)
        ensures
            r matches Err(e) ==> e@.path is None,
    {
        result_from_fse(outside::fse_get_size(self.path.as_str()))
    }

    /// Whether the file exists on disk.
    pub fn exists_on_disk(&self) -> bool {
        outside::path_exists(self.path.as_str())
    }

    /// Create the file if it does not exist yet. An existing file is left
    /// untouched; an existing entry of the wrong kind is an error.
    pub fn create(&self) -> (r: Result<(), Error>)
        ensures
            r matches Err(e) ==> e@.path is None,
    {
        if !self.exists_on_disk() {
            result_from_fse(outside::fse_write_all(self.path.as_str(), ""))
        } else if !outside::path_is_file(self.path.as_str()) {
            Err(Error::new_from_kind(ErrorKind::InvalidFile))
        } else {
            Ok(())
        }
    }

    /// Create the file and its missing parent directories.
    pub fn create_all(&self) -> (r: Result<(), Error>)
        ensures
            r matches Err(e) ==> parent_of(self.path@) is None ==> e@ == default_error(
                ErrorKind::PathNoParentFound,
            ),
    {
        let parent = path_stuff::parent(self.path.as_str())?;
        result_from_fse(outside::fse_create_dir_all(parent))?;
        self.create()
    }

    /// Replace the file's contents with the given text, creating the file
    /// if needed.
    pub fn write(&self, content: &str) -> (r: Result<(), Error>)
        ensures
            r matches Err(e) ==> e@.path is None,
    {
        result_from_fse(outside::fse_write_all(self.path.as_str(), content))
    }

    /// Read the file's contents as text.
    pub fn read_to_string(&self) -> (r: Result<String, Error>)
        ensures
            r matches Err(e) ==> e@.path is None,
    {
        result_from_fse(outside::fse_read_to_string(self.path.as_str()))
    }

    /// Delete the file. Fails with `NotFound` when it does not exist.
    pub fn delete(&self) -> (r: Result<(), Error>)
        ensures
            r matches Err(e) ==> e@.path is None,
    {
        if !self.exists_on_disk() {
            Err(Error::new_from_kind(ErrorKind::NotFound))
        } else {
            result_from_fse(outside::fse_remove_file(self.path.as_str()))
        }
    }

    /// Copy the file to the destination path, replacing an existing
    /// destination, and return a handle on the copy.
    pub fn copy(&self, destination: &str) -> (r: Result<File, Error>)
        ensures
            r matches Ok(f) ==> f.path@ == destination@,
            r matches Err(e) ==> e@.path is None,
    {
        result_from_fse(outside::fse_copy_file(self.path.as_str(), destination))?;
        File::new(destination)
    }

    /// Move the file to the destination path and return a handle on it.
    pub fn move_to(&self, destination: &str) -> (r: Result<File, Error>)
        ensures
            r matches Ok(f) ==> f.path@ == destination@,
            r matches Err(e) ==> e@.path is None,
    {
        result_from_fse(outside::fse_move_file(self.path.as_str(), destination))?;
        File::new(destination)
    }

    /// Rename the file within its parent directory and return a handle on
    /// the renamed file.
    pub fn rename(&self, dest: &str) -> (r: Result<File, Error>)
        ensures
            r matches Ok(f) ==> parent_of(self.path@) matches Some(p) && f.path@ == join_paths(
                p,
                dest@,
            ),
            r matches Err(e) ==> parent_of(self.path@) is None ==> e@ == default_error(
                ErrorKind::PathNoParentFound,
            ),
    {
        let parent = path_stuff::parent(self.path.as_str())?;
        let real_dest = path_stuff::join_entry(parent, dest);
        self.move_to(real_dest.as_str())
    }
}

} // verus!
