//! A snapshot of files and directories, keyed by path.

use crate::model::opt_view;
use crate::text_map::TextMap;
use vstd::prelude::*;
use vstd::utf8::*;

verus! {

/// What stands at a path.
pub enum FileNode {
    Directory,
    File(Vec<u8>),
}

/// A snapshot of a file system: what stands at each path that was looked at.
pub struct FileTree {
    pub nodes: TextMap<FileNode>,
    /// Why paths could not be read, in the words of the system. What is missing has none.
    pub causes: TextMap<String>,
    /// The sizes of what is no file that could be read.
    pub sizes: TextMap<u64>,
}

/// `std::str::from_utf8`: the text that bytes encode, where they are valid UTF-8.
#[verifier::external_body]
pub(crate) fn utf8_text(bytes: &[u8]) -> (r: Option<String>)
    ensures
        match r {
            Some(s) => valid_utf8(bytes@) && s@ == decode_utf8(bytes@),
            None => !valid_utf8(bytes@),
        },
{
    std::str::from_utf8(bytes).ok().map(str::to_owned)
}

/// What `String::from_utf8_lossy` makes of bytes.
pub uninterp spec fn utf8_lossy(bytes: Seq<u8>) -> Seq<char>;

/// `String::from_utf8_lossy`: the text of bytes, with the replacement character
/// in place of what is not UTF-8. Of valid UTF-8 it is the encoded text.
#[verifier::external_body]
pub(crate) fn lossy_text(bytes: &[u8]) -> (r: String)
    ensures
        r@ == utf8_lossy(bytes@),
        valid_utf8(bytes@) ==> r@ == decode_utf8(bytes@),
{
    String::from_utf8_lossy(bytes).into_owned()
}

impl FileTree {
    /// The bytes of the file at a path.
    pub open spec fn bytes_at(&self, path: Seq<char>) -> Option<Seq<u8>> {
        if self.nodes@.dom().contains(path) {
            match self.nodes@[path] {
                FileNode::File(bytes) => Some(bytes@),
                FileNode::Directory => None,
            }
        } else {
            None
        }
    }

    /// The text of the file at a path, where it holds valid UTF-8.
    pub open spec fn text_at(&self, path: Seq<char>) -> Option<Seq<char>> {
        match self.bytes_at(path) {
            Some(bytes) => if valid_utf8(bytes) {
                Some(decode_utf8(bytes))
            } else {
                None
            },
            None => None,
        }
    }

    /// Whether a directory stands at a path.
    pub open spec fn is_dir_at(&self, path: Seq<char>) -> bool {
        self.nodes@.dom().contains(path) && self.nodes@[path] is Directory
    }

    /// Whether a file stands at a path.
    pub open spec fn is_file_at(&self, path: Seq<char>) -> bool {
        self.nodes@.dom().contains(path) && self.nodes@[path] is File
    }

    /// Why the text of a path cannot be read: as the system said where it did, else as it
    /// says of a file that holds no text, of a directory and of what is not there.
    pub open spec fn cause_at(&self, path: Seq<char>) -> Seq<char> {
        if self.causes@.dom().contains(path) {
            self.causes@[path]@
        } else if self.is_file_at(path) {
            "stream did not contain valid UTF-8"@
        } else if self.is_dir_at(path) {
            "Is a directory (os error 21)"@
        } else {
            "No such file or directory (os error 2)"@
        }
    }

    /// Why the bytes of a path cannot be read: it is a directory, or the system said why.
    /// What is missing, and a file that was read, give none.
    pub open spec fn failure_at(&self, path: Seq<char>) -> Option<Seq<char>> {
        if !self.is_file_at(path) && (self.is_dir_at(path) || self.causes@.dom().contains(path)) {
            Some(self.cause_at(path))
        } else {
            None
        }
    }

    /// Whether a file stands at a path, be it one that could not be read.
    pub open spec fn names_file(&self, path: Seq<char>) -> bool {
        self.is_file_at(path) || (!self.is_dir_at(path) && self.causes@.dom().contains(path))
    }

    /// The size of what stands at a path.
    pub open spec fn size_at(&self, path: Seq<char>) -> Option<nat> {
        match self.bytes_at(path) {
            Some(bytes) => Some(bytes.len()),
            None => if self.sizes@.dom().contains(path) {
                Some(self.sizes@[path] as nat)
            } else if self.is_dir_at(path) {
                Some(0)
            } else {
                None
            },
        }
    }

    /// Why the size of what stands at a path is not known.
    pub open spec fn size_failure_at(&self, path: Seq<char>) -> Option<Seq<char>> {
        if self.size_at(path) is None && self.causes@.dom().contains(path) {
            Some(self.cause_at(path))
        } else {
            None
        }
    }

    /// Why the bytes of a path cannot be read.
    pub fn failure(&self, path: &str) -> (r: Option<String>)
        ensures
            opt_view(r) == self.failure_at(path@),
    {
        if !self.is_file(path) && (self.is_dir(path) || self.causes.contains_key(path)) {
            Some(self.cause(path))
        } else {
            None
        }
    }

    /// Whether a file stands at a path, be it one that could not be read.
    pub fn has_file(&self, path: &str) -> (r: bool)
        ensures
            r == self.names_file(path@),
    {
        self.is_file(path) || (!self.is_dir(path) && self.causes.contains_key(path))
    }

    /// The size of what stands at a path.
    pub fn size(&self, path: &str) -> (r: Option<u64>)
        ensures
            match r {
                Some(n) => self.size_at(path@) == Some(n as nat),
                None => self.size_at(path@) is None,
            },
    {
        if let Some(bytes) = self.read(path) {
            return Some(bytes.len() as u64);
        }
        if let Some(n) = self.sizes.get(path) {
            return Some(*n);
        }
        if self.is_dir(path) {
            Some(0)
        } else {
            None
        }
    }

    /// Why the size of what stands at a path is not known.
    pub fn size_failure(&self, path: &str) -> (r: Option<String>)
        ensures
            opt_view(r) == self.size_failure_at(path@),
    {
        if self.size(path).is_none() && self.causes.contains_key(path) {
            Some(self.cause(path))
        } else {
            None
        }
    }

    /// Records the size of what is no file that could be read.
    pub fn add_size(&mut self, path: &str, size: u64)
        ensures
            final(self).nodes == old(self).nodes,
            final(self).causes == old(self).causes,
            final(self).sizes@ == old(self).sizes@.insert(path@, size),
    {
        self.sizes.insert(path.to_owned(), size);
    }

    /// A snapshot with nothing in it.
    pub fn new() -> (r: Self)
        ensures
            r.nodes@ == Map::<Seq<char>, FileNode>::empty(),
            r.causes@ == Map::<Seq<char>, String>::empty(),
            r.sizes@ == Map::<Seq<char>, u64>::empty(),
    {
        FileTree { nodes: TextMap::new(), causes: TextMap::new(), sizes: TextMap::new() }
    }

    /// Records why a path could not be read.
    pub fn add_cause(&mut self, path: &str, words: String)
        ensures
            final(self).nodes == old(self).nodes,
            final(self).causes@ == old(self).causes@.insert(path@, words),
            final(self).sizes == old(self).sizes,
    {
        self.causes.insert(path.to_owned(), words);
    }

    /// Why the text of a path cannot be read.
    pub fn cause(&self, path: &str) -> (r: String)
        ensures
            r@ == self.cause_at(path@),
    {
        if let Some(words) = self.causes.get(path) {
            return words.clone();
        }
        if self.is_file(path) {
            "stream did not contain valid UTF-8".to_owned()
        } else if self.is_dir(path) {
            "Is a directory (os error 21)".to_owned()
        } else {
            "No such file or directory (os error 2)".to_owned()
        }
    }

    /// Records a file.
    pub fn add_file(&mut self, path: &str, bytes: Vec<u8>)
        ensures
            final(self).nodes@ == old(self).nodes@.insert(path@, FileNode::File(bytes)),
            final(self).causes == old(self).causes,
            final(self).sizes == old(self).sizes,
    {
        self.nodes.insert(path.to_owned(), FileNode::File(bytes));
    }

    /// Records a directory.
    pub fn add_dir(&mut self, path: &str)
        ensures
            final(self).nodes@ == old(self).nodes@.insert(path@, FileNode::Directory),
            final(self).causes == old(self).causes,
            final(self).sizes == old(self).sizes,
    {
        self.nodes.insert(path.to_owned(), FileNode::Directory);
    }

    /// Whether a directory stands at a path.
    pub fn is_dir(&self, path: &str) -> (r: bool)
        ensures
            r == self.is_dir_at(path@),
    {
        match self.nodes.get(path) {
            Some(FileNode::Directory) => true,
            _ => false,
        }
    }

    /// Whether a file stands at a path.
    pub fn is_file(&self, path: &str) -> (r: bool)
        ensures
            r == self.is_file_at(path@),
    {
        match self.nodes.get(path) {
            Some(FileNode::File(_)) => true,
            _ => false,
        }
    }

    /// The bytes of the file at a path.
    pub fn read(&self, path: &str) -> (r: Option<&Vec<u8>>)
        ensures
            match r {
                Some(bytes) => self.bytes_at(path@) == Some(bytes@),
                None => self.bytes_at(path@) is None,
            },
    {
        match self.nodes.get(path) {
            Some(FileNode::File(bytes)) => Some(bytes),
            _ => None,
        }
    }

    /// The text of the file at a path, where it holds valid UTF-8.
    pub fn read_to_string(&self, path: &str) -> (r: Option<String>)
        ensures
            match r {
                Some(text) => self.text_at(path@) == Some(text@),
                None => self.text_at(path@) is None,
            },
    {
        match self.read(path) {
            Some(bytes) => utf8_text(bytes.as_slice()),
            None => None,
        }
    }
}

} // verus!
