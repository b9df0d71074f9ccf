//! The entries of a directory as plain values, and their classification.

use vstd::prelude::*;

verus! {

/// What the file system reports an entry to be. A symlink is reported as a
/// symlink, whatever it points to.
#[derive(Clone, Copy, Debug, PartialEq, Eq)]
pub enum FileKind {
    Directory,
    Symlink,
    File,
    Other,
}

/// The metadata of one entry.
#[derive(Clone, Copy, Debug, PartialEq, Eq)]
pub struct Metadata {
    /// The permission bits; only the lowest nine are rendered.
    pub mode: u32,
    /// The size in bytes.
    pub size: u64,
    /// The last modification, in seconds since the epoch.
    pub modified: u64,
}

/// One entry of a directory. `file_type` is `None` where the file type could
/// not be read, `metadata` is `None` where the metadata could not be read.
#[derive(Clone, Debug)]
pub struct Entry {
    pub name: String,
    pub file_type: Option<FileKind>,
    pub metadata: Option<Metadata>,
}

/// The type flags of an entry and its rank in a listing.
#[derive(Clone, Copy, Debug, PartialEq, Eq)]
pub struct Classification {
    pub is_directory: bool,
    pub is_symlink: bool,
    pub is_executable: bool,
    pub is_hidden: bool,
    pub priority: u8,
}

/// A name is hidden when it starts with a dot.
pub open spec fn is_hidden_name(name: Seq<char>) -> bool {
    name.len() > 0 && name[0] == '.'
}

/// Whether any of the three execute bits of `mode` is set.
pub open spec fn has_execute_bit(mode: u32) -> bool {
    mode & 0o111 != 0
}

/// A regular file is executable when its metadata could be read and an
/// execute bit is set; nothing else is.
pub open spec fn is_executable_entry(entry: Entry) -> bool {
    entry.file_type == Some(FileKind::File) && entry.metadata is Some && has_execute_bit(
        entry.metadata->0.mode,
    )
}

/// The three type flags: directory, symlink, executable. All are false
/// where the file type could not be read.
pub open spec fn entry_type(entry: Entry) -> Seq<bool> {
    seq![
        entry.file_type == Some(FileKind::Directory),
        entry.file_type == Some(FileKind::Symlink),
        is_executable_entry(entry),
    ]
}

/// The rank of an entry: directories, symlinks, executables, other files,
/// and the hidden ones of each after all visible ones.
pub open spec fn rank(is_directory: bool, is_symlink: bool, is_executable: bool, is_hidden: bool)
    -> nat {
    let base: nat = if is_directory {
        0
    } else if is_symlink {
        1
    } else if is_executable {
        2
    } else {
        3
    };
    if is_hidden {
        base + 4
    } else {
        base
    }
}

/// The classification of an entry. One whose file type could not be read
/// counts as a plain visible file.
pub open spec fn classification(entry: Entry) -> Classification {
    if entry.file_type is None {
        Classification {
            is_directory: false,
            is_symlink: false,
            is_executable: false,
            is_hidden: false,
            priority: 3,
        }
    } else {
        let is_directory = entry.file_type == Some(FileKind::Directory);
        let is_symlink = entry.file_type == Some(FileKind::Symlink);
        let is_executable = is_executable_entry(entry);
        let is_hidden = is_hidden_name(entry.name@);
        Classification {
            is_directory,
            is_symlink,
            is_executable,
            is_hidden,
            priority: rank(is_directory, is_symlink, is_executable, is_hidden) as u8,
        }
    }
}

/// Whether a name starts with a dot.
pub fn is_hidden(name: &str) -> (hidden: bool)
    ensures
        hidden == is_hidden_name(name@),
{
    name.unicode_len() > 0 && name.get_char(0) == '.'
}

impl FileKind {
    /// Whether an entry of this kind is an executable file.
    pub fn is_executable(&self, entry: &Entry) -> (executable: bool)
        ensures
            executable == (*self == FileKind::File && entry.metadata is Some && has_execute_bit(
                entry.metadata->0.mode,
            )),
    {
        match entry.metadata {
            Some(metadata) => matches!(self, FileKind::File) && metadata.mode & 0o111 != 0,
            None => false,
        }
    }
}

/// The type flags of an entry: directory, symlink, executable.
pub fn get_entry_type(entry: &Entry) -> (flags: [bool; 3])
    ensures
        flags@ == entry_type(*entry),
{
    let flags = match entry.file_type {
        None => [false, false, false],
        Some(file_type) => [
            matches!(file_type, FileKind::Directory),
            matches!(file_type, FileKind::Symlink),
            file_type.is_executable(entry),
        ],
    };
    assert(flags@ =~= entry_type(*entry));
    flags
}

/// Classifies one entry.
pub fn classify(entry: &Entry) -> (class: Classification)
    ensures
        class == classification(*entry),
        class.priority <= 7,
{
    let flags = get_entry_type(entry);
    let is_directory = flags[0];
    let is_symlink = flags[1];
    let is_executable = flags[2];
    let is_hidden = entry.file_type.is_some() && is_hidden(entry.name.as_str());
    let base: u8 = if is_directory {
        0
    } else if is_symlink {
        1
    } else if is_executable {
        2
    } else {
        3
    };
    let priority: u8 = if is_hidden {
        base + 4
    } else {
        base
    };
    Classification { is_directory, is_symlink, is_executable, is_hidden, priority }
}

} // verus!
