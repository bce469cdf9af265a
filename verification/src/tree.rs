use vstd::prelude::*;

verus! {

/// The type of a directory entry, as the directory itself records it: a link is a
/// link, whatever it points to.
#[derive(Clone, Copy, Debug, PartialEq, Eq, Structural)]
pub enum FileKind {
    BlockDevice,
    CharDevice,
    Directory,
    File,
    Fifo,
    Symlink,
    Socket,
    Unknown,
}

impl FileKind {
    /// Whether `c` is one of the characters that name a file type.
    pub open spec fn is_type_char(c: char) -> bool {
        c == 'b' || c == 'c' || c == 'd' || c == 'f' || c == 'p' || c == 'l' || c == 's'
    }

    /// The file type that the character `c` names, if it names one.
    pub open spec fn named_by(c: char) -> Option<FileKind> {
        if c == 'b' {
            Some(FileKind::BlockDevice)
        } else if c == 'c' {
            Some(FileKind::CharDevice)
        } else if c == 'd' {
            Some(FileKind::Directory)
        } else if c == 'f' {
            Some(FileKind::File)
        } else if c == 'p' {
            Some(FileKind::Fifo)
        } else if c == 'l' {
            Some(FileKind::Symlink)
        } else if c == 's' {
            Some(FileKind::Socket)
        } else {
            None
        }
    }

    /// Computes [`FileKind::named_by`].
    pub fn from_type_char(c: char) -> (kind: Option<FileKind>)
        ensures
            kind == FileKind::named_by(c),
            kind is Some <==> FileKind::is_type_char(c),
    {
        if c == 'b' {
            Some(FileKind::BlockDevice)
        } else if c == 'c' {
            Some(FileKind::CharDevice)
        } else if c == 'd' {
            Some(FileKind::Directory)
        } else if c == 'f' {
            Some(FileKind::File)
        } else if c == 'p' {
            Some(FileKind::Fifo)
        } else if c == 'l' {
            Some(FileKind::Symlink)
        } else if c == 's' {
            Some(FileKind::Socket)
        } else {
            None
        }
    }
}

/// What reading a symbolic link gave.
#[derive(Debug)]
pub enum LinkTarget {
    /// The path the link points to.
    Resolved(String),
    /// The link points to nothing.
    Broken,
}

/// What listing a directory gave.
#[derive(Debug)]
pub enum Listing {
    /// The entries, in the order the directory handed them out.
    Entries(Vec<Entry>),
    /// The directory may not be read.
    PermissionDenied,
    /// Reading the directory failed for another reason.
    Failed,
}

/// What a directory entry is, with what a walk may need to know of it.
#[derive(Debug)]
pub enum Node {
    BlockDevice,
    CharDevice,
    File,
    Fifo,
    Socket,
    Unknown,
    /// A directory, with what listing it gave.
    Directory(Listing),
    /// A symbolic link, with what reading it gave.
    Symlink(LinkTarget),
}

/// One entry of a directory.
#[derive(Debug)]
pub struct Entry {
    /// The base name, without any directory part.
    pub name: String,
    pub node: Node,
}

impl Node {
    /// The file type of the entry.
    pub open spec fn kind(self) -> FileKind {
        match self {
            Node::BlockDevice => FileKind::BlockDevice,
            Node::CharDevice => FileKind::CharDevice,
            Node::File => FileKind::File,
            Node::Fifo => FileKind::Fifo,
            Node::Socket => FileKind::Socket,
            Node::Unknown => FileKind::Unknown,
            Node::Directory(_) => FileKind::Directory,
            Node::Symlink(_) => FileKind::Symlink,
        }
    }

    /// Computes [`Node::kind`].
    pub fn file_kind(&self) -> (kind: FileKind)
        ensures
            kind == self.kind(),
    {
        match self {
            Node::BlockDevice => FileKind::BlockDevice,
            Node::CharDevice => FileKind::CharDevice,
            Node::File => FileKind::File,
            Node::Fifo => FileKind::Fifo,
            Node::Socket => FileKind::Socket,
            Node::Unknown => FileKind::Unknown,
            Node::Directory(_) => FileKind::Directory,
            Node::Symlink(_) => FileKind::Symlink,
        }
    }
}

} // verus!
