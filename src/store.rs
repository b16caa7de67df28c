//! The store handle: a canonical root directory, and the paths of keys in it.

use vstd::prelude::*;
use crate::error::Error;
use crate::key::{
    check_key, key_file_name, push_bytes, push_key_suffix, push_temp_suffix, temp_file_name,
    utf8_valid_up_to, valid_utf8,
};

verus! {

/// The byte of `/`, the separator of path components.
pub const SEPARATOR: u8 = 0x2F;

/// The path of the entry `name` inside the directory `root`.
pub open spec fn joined(root: Seq<u8>, name: Seq<u8>) -> Seq<u8> {
    if root.len() > 0 && root.last() == SEPARATOR {
        root + name
    } else {
        root + seq![SEPARATOR] + name
    }
}

/// A store whose values live in files of one directory.
#[derive(Debug)]
pub struct FolderBackedLuxo {
    folder: Vec<u8>,
}

impl View for FolderBackedLuxo {
    type V = Seq<u8>;

    /// The bytes of the root directory's canonical path.
    closed spec fn view(&self) -> Seq<u8> {
        self.folder@
    }
}

/// Receives a value handed out by the store.
pub trait Callback {
    fn with_u8(&self, value: &[u8]);
}

/// What stands at the path a store is to be rooted at.
#[derive(Debug, Clone, Copy, PartialEq, Eq, Structural)]
pub enum RootEntry {
    Missing,
    Directory,
    Other,
}

/// What is to be done at a store's root before the store is used.
#[derive(Debug, Clone, Copy, PartialEq, Eq, Structural)]
pub enum RootAction {
    /// Create the directory.
    Create,
    /// Use the directory as it is.
    Use,
    /// Fail: something that is not a directory stands there.
    Reject,
}

/// The action for a root where `entry` stands.
pub open spec fn root_action(entry: RootEntry) -> RootAction {
    match entry {
        RootEntry::Missing => RootAction::Create,
        RootEntry::Directory => RootAction::Use,
        RootEntry::Other => RootAction::Reject,
    }
}

/// What stands at the root once `action` has succeeded there.
pub open spec fn root_after(entry: RootEntry, action: RootAction) -> RootEntry {
    match action {
        RootAction::Create => RootEntry::Directory,
        _ => entry,
    }
}

/// Decides what to do at a store's root: a missing directory is created,
/// an existing one is used, and anything else is refused.
pub fn plan_root(entry: RootEntry) -> (r: RootAction)
    ensures
        r == root_action(entry),
{
    match entry {
        RootEntry::Missing => RootAction::Create,
        RootEntry::Directory => RootAction::Use,
        RootEntry::Other => RootAction::Reject,
    }
}

/// Preparing a root that was accepted leaves a directory there, and preparing
/// it once more changes nothing.
pub proof fn lemma_root_preparation_idempotent(entry: RootEntry)
    requires
        root_action(entry) != RootAction::Reject,
    ensures
        root_after(entry, root_action(entry)) == RootEntry::Directory,
        root_action(root_after(entry, root_action(entry))) == RootAction::Use,
        root_after(root_after(entry, root_action(entry)), RootAction::Use)
            == root_after(entry, root_action(entry)),
{
}

/// Appends the separator to `v` unless it already ends with one.
fn push_separator(v: &mut Vec<u8>)
    ensures
        joined(old(v)@, Seq::empty()) == final(v)@,
{
    let n = v.len();
    if n == 0 || v[n - 1] != SEPARATOR {
        v.push(SEPARATOR);
        assert(final(v)@ =~= old(v)@ + seq![SEPARATOR] + Seq::<u8>::empty());
    } else {
        assert(final(v)@ =~= old(v)@ + Seq::<u8>::empty());
    }
}

impl FolderBackedLuxo {
    /// A store rooted at the directory whose canonical path is `folder`.
    pub fn new(folder: Vec<u8>) -> (r: FolderBackedLuxo)
        ensures
            r@ == folder@,
    {
        FolderBackedLuxo { folder }
    }

    /// The bytes of the root directory's path.
    pub fn folder(&self) -> (r: &[u8])
        ensures
            r@ == self@,
    {
        self.folder.as_slice()
    }

    /// The path of the temporary file of `key` (`temp`) or of its file.
    pub(crate) fn path_of(&self, key: &[u8], temp: bool) -> (r: Vec<u8>)
        requires
            self@.len() + key@.len() + 9 <= usize::MAX,
        ensures
            temp ==> r@ == joined(self@, temp_file_name(key@)),
            !temp ==> r@ == joined(self@, key_file_name(key@)),
    {
        let mut p = self.folder.clone();
        assert(p@ =~= self@);
        push_separator(&mut p);
        let ghost dir = p@;
        push_bytes(&mut p, key);
        push_key_suffix(&mut p);
        if temp {
            push_temp_suffix(&mut p);
        }
        proof {
            let name = if temp { temp_file_name(key@) } else { key_file_name(key@) };
            if self@.len() > 0 && self@.last() == SEPARATOR {
                assert(dir =~= self@);
                assert(p@ =~= self@ + name);
            } else {
                assert(dir =~= self@ + seq![SEPARATOR]);
                assert(p@ =~= self@ + seq![SEPARATOR] + name);
            }
        }
        p
    }

    /// The path of the file that holds the value of `key`.
    ///
    /// Fails, touching nothing, when `key` is not valid UTF-8.
    pub fn key_path(&self, key: &[u8]) -> (r: Result<Vec<u8>, Error>)
        requires
            self@.len() + key@.len() + 9 <= usize::MAX,
        ensures
            r is Ok <==> valid_utf8(key@),
            r matches Ok(p) ==> p@ == joined(self@, key_file_name(key@)),
            r matches Err(e) ==> e == Error::Utf8Error(
                crate::key::KeyEncodingError { valid_up_to: utf8_valid_up_to(key@) as usize },
            ),
    {
        match check_key(key) {
            Ok(()) => Ok(self.path_of(key, false)),
            Err(e) => Err(Error::Utf8Error(e)),
        }
    }
}

} // verus!
