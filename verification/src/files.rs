//! File records: authentication tags, ownership, and the references that a
//! task binds to its slots.

use crate::ids::ExternalID;
use crate::names::NameSet;
use vstd::prelude::*;

verus! {

/// The number of bytes of an authentication tag.
pub const FILE_AUTH_TAG_LENGTH: usize = 16;

/// The authentication tag of a file: sixteen bytes.
#[derive(Clone, Copy, Debug)]
pub struct FileAuthTag {
    pub tag: [u8; 16],
}

impl View for FileAuthTag {
    type V = Seq<u8>;

    open spec fn view(&self) -> Seq<u8> {
        self.tag@
    }
}

impl FileAuthTag {
    /// The tag made of `bytes`, where there are sixteen of them.
    pub fn from_bytes(bytes: &[u8]) -> (tag: Option<FileAuthTag>)
        ensures
            bytes@.len() == 16 ==> tag.is_some() && tag.unwrap()@ == bytes@,
            bytes@.len() != 16 ==> tag.is_none(),
    {
        if bytes.len() != FILE_AUTH_TAG_LENGTH {
            return None;
        }
        let mut tag: [u8; 16] = [0u8; 16];
        let mut i: usize = 0;
        while i < 16
            invariant
                i <= 16,
                bytes@.len() == 16,
                forall|j: int| 0 <= j < i ==> tag@[j] == bytes@[j],
            decreases 16 - i,
        {
            tag[i] = bytes[i];
            i += 1;
        }
        assert(tag@ =~= bytes@);
        Some(FileAuthTag { tag })
    }

    /// The sixteen bytes of the tag.
    pub fn to_bytes(&self) -> (bytes: Vec<u8>)
        ensures
            bytes@ == self@,
    {
        let mut bytes: Vec<u8> = Vec::new();
        let mut i: usize = 0;
        while i < 16
            invariant
                i <= 16,
                bytes@.len() == i,
                forall|j: int| 0 <= j < i ==> bytes@[j] == self.tag@[j],
            decreases 16 - i,
        {
            bytes.push(self.tag[i]);
            i += 1;
        }
        assert(bytes@ =~= self@);
        bytes
    }

    /// Whether the two tags hold the same bytes.
    pub fn same_as(&self, other: &FileAuthTag) -> (same: bool)
        ensures
            same == (self@ == other@),
    {
        let mut i: usize = 0;
        while i < 16
            invariant
                i <= 16,
                forall|j: int| 0 <= j < i ==> self.tag@[j] == other.tag@[j],
            decreases 16 - i,
        {
            if self.tag[i] != other.tag[i] {
                return false;
            }
            i += 1;
        }
        assert(self@ =~= other@);
        true
    }
}

/// A file as a task sees it when data is assigned: its identifier and the
/// users who own it.
pub struct FileRef {
    pub id: ExternalID,
    pub owners: NameSet,
}

/// The model of a `FileRef`.
pub struct FileRefView {
    pub id: ExternalID,
    pub owners: Set<Seq<char>>,
}

impl View for FileRef {
    type V = FileRefView;

    open spec fn view(&self) -> FileRefView {
        FileRefView { id: self.id, owners: self.owners@ }
    }
}

} // verus!
