//! The durable entities besides the task: users, functions and files.

use crate::files::FileAuthTag;
use crate::ids::ExternalID;
use crate::names::NameSet;
use crate::task::ExecutorType;
use vstd::prelude::*;

verus! {

/// What a user is to the platform.
#[derive(Clone, Copy, Debug, PartialEq, Eq, Structural)]
pub enum Role {
    PlatformAdmin,
    DataOwner,
    FunctionOwner,
    Executor,
}

/// A user of the platform.
pub struct User {
    pub id: String,
    pub role: Role,
}

/// How the content of a file is protected.
#[derive(Clone, Copy, Debug)]
#[allow(inconsistent_fields)]
pub enum FileCrypto {
    AesGcm128 { key: [u8; 16], iv: [u8; 12] },
    AesGcm256 { key: [u8; 32], iv: [u8; 12] },
    TeaclaveFile128 { key: [u8; 16] },
    Raw,
}

/// A registered input file. Its authentication tag is known from the start.
pub struct InputFile {
    pub id: ExternalID,
    pub owner: NameSet,
    pub url: String,
    pub crypto: FileCrypto,
    pub cmac: FileAuthTag,
    pub hash: Option<String>,
}

/// A registered output file. It gets its authentication tag when a task has
/// written it.
pub struct OutputFile {
    pub id: ExternalID,
    pub owner: NameSet,
    pub url: String,
    pub crypto: FileCrypto,
    pub cmac: Option<FileAuthTag>,
    pub hash: Option<String>,
}

/// The text of an optional hash.
pub open spec fn hash_text(hash: Option<String>) -> Option<Seq<char>> {
    match hash {
        Some(text) => Some(text@),
        None => None,
    }
}

/// A copy of an optional hash.
pub fn clone_hash(hash: &Option<String>) -> (copy: Option<String>)
    ensures
        hash_text(copy) == hash_text(*hash),
{
    match hash {
        Some(text) => Some(text.clone()),
        None => None,
    }
}

/// One input or output slot of a function.
pub struct SlotSpec {
    pub name: String,
    pub optional: bool,
}

/// A registered function.
pub struct Function {
    pub id: ExternalID,
    pub name: String,
    pub description: String,
    pub executor_type: ExecutorType,
    pub payload: Vec<u8>,
    pub arguments: NameSet,
    pub inputs: Vec<SlotSpec>,
    pub outputs: Vec<SlotSpec>,
    pub owner: String,
    pub public: bool,
    pub usage_quota: Option<i32>,
}

/// The names of a list of slots.
pub open spec fn slot_names(slots: Seq<SlotSpec>) -> Set<Seq<char>> {
    Set::new(|name: Seq<char>| exists|i: int| 0 <= i < slots.len() && (#[trigger] slots[i]).name@ == name)
}

/// The names of the slots that must be bound.
pub open spec fn required_names(slots: Seq<SlotSpec>) -> Set<Seq<char>> {
    Set::new(
        |name: Seq<char>|
            exists|i: int|
                0 <= i < slots.len() && (#[trigger] slots[i]).name@ == name && !slots[i].optional,
    )
}

/// Whether `name` is the name of one of `slots`.
pub fn has_slot(slots: &Vec<SlotSpec>, name: &String) -> (found: bool)
    ensures
        found == slot_names(slots@).contains(name@),
{
    let mut i: usize = 0;
    while i < slots.len()
        invariant
            i <= slots@.len(),
            forall|j: int| 0 <= j < i ==> (#[trigger] slots@[j]).name@ != name@,
        decreases slots@.len() - i,
    {
        if slots[i].name == *name {
            return true;
        }
        i += 1;
    }
    false
}

} // verus!
