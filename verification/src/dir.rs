//! The [`Dir`] handle: a path expected to name a directory, with operations
//! on that directory and on the entries inside it.

use crate::error::Error;
use crate::error::ErrorKind;
use crate::error::result_from_fse;
use crate::file::File;
use crate::outside;
use crate::path_stuff;
use crate::path_stuff::ParsedPathDir;
use crate::path_stuff::default_error;
use crate::path_stuff::join_paths;
use crate::path_stuff::name_of;
use crate::path_stuff::parent_of;
use vstd::prelude::*;

verus! {

/// A handle on a directory path.
#[derive(Debug, Clone)]
pub struct Dir {
    /// The path of the directory.
    pub path: String,
}

/// One entry of a directory listing.
#[derive(Debug, Clone)]
pub struct DirEntry {
    /// The full path of the entry.
    pub path: String,
    /// Whether the entry is a regular file (false: a directory).
    pub is_file: bool,
}

impl DirEntry {
    /// The full path of the entry.
    pub fn path(&self) -> (r: &str)
        ensures
            r@ == self.path@,
    {
        self.path.as_str()
    }

    /// Whether the entry is a regular file.
    pub fn is_file(&self) -> (r: bool)
        ensures
            r == self.is_file,
    {
        self.is_file
    }

    /// The file name of the entry.
    pub fn file_name(&self) -> (r: Result<&str, Error>)
        ensures
            match r {
                Ok(n) => n@ == name_of(self.path@) && name_of(self.path@).len() > 0,
                Err(e) => name_of(self.path@).len() == 0 && e@ == default_error(
                    ErrorKind::PathNoFilenameFound,
                ),
            },
    {
        path_stuff::name(self.path.as_str())
    }
}

/// Whether every entry of a listing lies directly under the given root.
pub open spec fn entries_under(root: Seq<char>, entries: Seq<DirEntry>) -> bool {
    forall|i: int|
        0 <= i < entries.len() ==> outside::is_child_path(root, #[trigger] entries[i].path@)
}

impl Dir {
    /// Create a new directory handle for the path. Fails when the path
    /// names an existing entry that is a regular file.
    pub fn new(path: &str) -> (r: Result<Dir, Error>)
        ensures
            r matches Ok(d) ==> d.path@ == path@,
            r matches Err(e) ==> e@ == default_error(ErrorKind::InvalidFolder),
    {
        if outside::path_exists(path) && outside::path_is_file(path) {
            Err(Error::new_from_kind(ErrorKind::InvalidFolder))
        } else {
            Ok(Dir { path: path.to_owned() })
        }
    }

    /// The parent directory of the directory's path.
    pub fn parent(&self) -> (r: Result<&str, Error>)
        ensures
            match r {
                Ok(p) => parent_of(self.path@) == Some(p@),
                Err(e) => parent_of(self.path@) is None && e@ == default_error(
                    ErrorKind::PathNoParentFound,
                ),
            },
    {
        path_stuff::parent(self.path.as_str())
    }

    /// The name of the directory.
    pub fn name(&self) -> (r: Result<&str, Error>)
        ensures
            match r {
                Ok(n) => n@ == name_of(self.path@) && name_of(self.path@).len() > 0,
                Err(e) => name_of(self.path@).len() == 0 && e@ == default_error(
                    ErrorKind::PathNoFilenameFound,
                ),
            },
    {
        path_stuff::name(self.path.as_str())
    }

    /// Parse the directory's path into its pieces.
    pub fn parse_path(&self) -> (r: Result<ParsedPathDir<'_>, Error>)
        ensures
            match r {
                Ok(pp) => {
                    &&& pp.path@ == self.path@
                    &&& parent_of(self.path@) == Some(pp.parent@)
                    &&& pp.name@ == name_of(self.path@)
                },
                Err(_) => parent_of(self.path@) is None || name_of(self.path@).len() == 0,
            },
    {
        path_stuff::parse_path_dir(self.path.as_str())
    }

    /// The size of everything under the directory, in bytes.
    pub fn size(&self) -> (r: Result<u64, Error>)
        ensures
            r matches Err(e) ==> e@.path is None,
    {
        result_from_fse(outside::fse_get_size(self.path.as_str()))
    }

    /// Whether the directory exists on disk.
    pub fn exists_on_disk(&self) -> bool {
        outside::path_exists(self.path.as_str())
    }

    /// Whether an entry of the given name exists inside the directory.
    pub fn entry_exists(&self, entry_name: &str) -> bool {
        let entry_path = path_stuff::join_entry(self.path.as_str(), entry_name);
        outside::path_exists(entry_path.as_str())
    }

    /// Create the directory if it does not exist yet. An existing
    /// directory is left untouched; an existing entry of the wrong kind is
    /// an error.
    pub fn create(&self) -> (r: Result<(), Error>)
        ensures
            r matches Err(e) ==> e@.path is None,
    {
        if self.exists_on_disk() {
            if outside::path_is_file(self.path.as_str()) {
                Err(Error::new_from_kind(ErrorKind::InvalidFolder))
            } else {
                Ok(())
            }
        } else {
            result_from_fse(outside::fse_create_dir(self.path.as_str()))
        }
    }

    /// Create the directory and its missing parent directories.
    pub fn create_all(&self) -> (r: Result<(), Error>)
        ensures
            r matches Err(e) ==> e@.path is None,
    {
        result_from_fse(outside::fse_create_dir_all(self.path.as_str()))
    }

    /// Delete the directory and everything in it; deleting a missing
    /// directory is a no-op.
    pub fn delete(&self) -> (r: Result<(), Error>)
        ensures
            r matches Err(e) ==> e@.path is None,
    {
        result_from_fse(outside::fse_remove_dir(self.path.as_str()))
    }

    /// Create a file of the given name inside the directory.
    pub fn create_file(&self, file_name: &str) -> (r: Result<File, Error>)
        ensures
            r matches Ok(f) ==> f.path@ == join_paths(self.path@, file_name@),
            r matches Err(e) ==> e@.path is None,
    {
        let file_path = path_stuff::join_entry(self.path.as_str(), file_name);
        let file = File::new(file_path.as_str())?;
        file.create()?;
        Ok(file)
    }

    /// Create a directory of the given name inside the directory.
    pub fn create_dir(&self, dir_name: &str) -> (r: Result<Dir, Error>)
        ensures
            r matches Ok(d) ==> d.path@ == join_paths(self.path@, dir_name@),
            r matches Err(e) ==> e@.path is None,
    {
        let dir_path = path_stuff::join_entry(self.path.as_str(), dir_name);
        let dir = Dir::new(dir_path.as_str())?;
        dir.create()?;
        Ok(dir)
    }

    /// Create a directory inside the directory, together with its missing
    /// parents along the given relative path.
    pub fn create_dir_all(&self, relative_path: &str) -> (r: Result<Dir, Error>)
        ensures
            r matches Ok(d) ==> d.path@ == join_paths(self.path@, relative_path@),
            r matches Err(e) ==> e@.path is None,
    {
        let dir_path = path_stuff::join_entry(self.path.as_str(), relative_path);
        result_from_fse(outside::fse_create_dir_all(dir_path.as_str()))?;
        Dir::new(dir_path.as_str())
    }

    /// Create a file inside the directory, together with its missing
    /// parents along the given relative path.
    pub fn create_file_all(&self, relative_path: &str) -> (r: Result<File, Error>)
        ensures
            r matches Ok(f) ==> f.path@ == join_paths(self.path@, relative_path@),
            r matches Err(e) ==> e@.path is None,
    {
        let file_path = path_stuff::join_entry(self.path.as_str(), relative_path);
        let parent = path_stuff::parent(file_path.as_str())?;
        result_from_fse(outside::fse_create_dir_all(parent))?;
        let file = File::new(file_path.as_str())?;
        file.create()?;
        Ok(file)
    }

    /// Delete a file of the given name inside the directory. Fails with
    /// `NotFound` when it does not exist.
    pub fn delete_file(&self, file_name: &str) -> (r: Result<(), Error>)
        ensures
            r matches Err(e) ==> e@.path is None,
    {
        let file_path = path_stuff::join_entry(self.path.as_str(), file_name);
        if !outside::path_exists(file_path.as_str()) {
            Err(Error::new_from_kind(ErrorKind::NotFound))
        } else {
            result_from_fse(outside::fse_remove_file(file_path.as_str()))
        }
    }

    /// Delete a directory of the given name inside the directory, and
    /// everything in it.
    pub fn delete_dir(&self, dir_name: &str) -> (r: Result<(), Error>)
        ensures
            r matches Err(e) ==> e@.path is None,
    {
        let dir_path = path_stuff::join_entry(self.path.as_str(), dir_name);
        result_from_fse(outside::fse_remove_dir(dir_path.as_str()))
    }

    /// A handle on a file of the given name inside the directory.
    pub fn get_file(&self, file_name: &str) -> (r: Result<File, Error>)
        ensures
            r matches Ok(f) ==> f.path@ == join_paths(self.path@, file_name@),
            r matches Err(e) ==> e@.kind == ErrorKind::InvalidFile && e@.path is None,
    {
        let file_path = path_stuff::join_entry(self.path.as_str(), file_name);
        File::new(file_path.as_str())
    }

    /// A handle on a directory of the given name inside the directory.
    pub fn get_dir(&self, dir_name: &str) -> (r: Result<Dir, Error>)
        ensures
            r matches Ok(d) ==> d.path@ == join_paths(self.path@, dir_name@),
            r matches Err(e) ==> e@ == default_error(ErrorKind::InvalidFolder),
    {
        let dir_path = path_stuff::join_entry(self.path.as_str(), dir_name);
        Dir::new(dir_path.as_str())
    }

    /// Copy the directory into the destination under the given options,
    /// creating the destination if it is missing, and return a handle on
    /// the destination.
    pub fn copy(&self, to: &str, options: &fs_extra::dir::CopyOptions) -> (r: Result<Dir, Error>)
        ensures
            r matches Ok(d) ==> d.path@ == to@,
            r matches Err(e) ==> e@.path is None,
    {
        if !outside::path_exists(to) {
            result_from_fse(outside::fse_create_dir(to))?;
        }
        result_from_fse(outside::fse_copy_dir(self.path.as_str(), to, options))?;
        Dir::new(to)
    }

    /// Move the directory into the destination under the given options,
    /// creating the destination if it is missing, and return a handle on
    /// the destination.
    pub fn move_to(&self, to: &str, options: &fs_extra::dir::CopyOptions) -> (r: Result<Dir, Error>)
        ensures
            r matches Ok(d) ==> d.path@ == to@,
            r matches Err(e) ==> e@.path is None,
    {
        if !outside::path_exists(to) {
            result_from_fse(outside::fse_create_dir(to))?;
        }
        result_from_fse(outside::fse_move_dir(self.path.as_str(), to, options))?;
        Dir::new(to)
    }

    /// List the direct entries of the directory. Directory entries come
    /// first, then file entries; within each group the order is the order
    /// the filesystem reports.
    pub fn read(&self) -> (r: Result<Vec<DirEntry>, Error>)
        ensures
            r matches Ok(entries) ==> entries_under(self.path@, entries@),
            r matches Err(e) ==> e@.path is None,
    {
        let listed = result_from_fse(outside::fse_list_dir(self.path.as_str()))?;
        let (dirs, files) = listed;
        let mut entries: Vec<DirEntry> = Vec::new();
        let mut i: usize = 0;
        while i < dirs.len()
            invariant
                i <= dirs.len(),
                entries_under(self.path@, entries@),
                outside::listing_of(self.path@, dirs.deep_view(), files.deep_view()),
            decreases dirs.len() - i,
        {
            let d = &dirs[i];
            if !d.eq(&self.path) {
                proof {
                    assert(dirs.deep_view()[i as int] == d@);
                }
                let ghost before = entries@;
                entries.push(DirEntry { path: d.clone(), is_file: false });
                proof {
                    assert forall|k: int|
                        0 <= k < entries@.len() implies outside::is_child_path(
                        self.path@,
                        #[trigger] entries@[k].path@,
                    ) by {
                        if k < before.len() {
                            assert(entries@[k] == before[k]);
                        } else {
                            assert(entries@[k].path@ == d@);
                        }
                    }
                }
            }
            i = i + 1;
        }
        let mut j: usize = 0;
        while j < files.len()
            invariant
                j <= files.len(),
                entries_under(self.path@, entries@),
                outside::listing_of(self.path@, dirs.deep_view(), files.deep_view()),
            decreases files.len() - j,
        {
            let f = &files[j];
            if !f.eq(&self.path) {
                proof {
                    assert(files.deep_view()[j as int] == f@);
                }
                let ghost before = entries@;
                entries.push(DirEntry { path: f.clone(), is_file: true });
                proof {
                    assert forall|k: int|
                        0 <= k < entries@.len() implies outside::is_child_path(
                        self.path@,
                        #[trigger] entries@[k].path@,
                    ) by {
                        if k < before.len() {
                            assert(entries@[k] == before[k]);
                        } else {
                            assert(entries@[k].path@ == f@);
                        }
                    }
                }
            }
            j = j + 1;
        }
        Ok(entries)
    }
}

} // verus!
