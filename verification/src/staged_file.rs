//! Staged files: the files of a task as a worker holds them, protected under
//! a file key, and the rules for reading, copying and uploading them. Opening
//! and writing the files is left to the caller.

use crate::entities::FileCrypto;
use crate::files::FileAuthTag;
use crate::table::NameMap;
use vstd::prelude::*;
use vstd::string::*;

verus! {

/// The key of a protected file: sixteen bytes.
#[derive(Clone, Copy, Debug)]
pub struct TeaclaveFile128Key {
    pub key: [u8; 16],
}

/// The bytes that a copy reads at once at most.
pub const COPY_BUFFER_BYTES: usize = 4096;

/// Why a staged file cannot be used.
#[derive(Clone, Copy, Debug, PartialEq, Eq, Structural)]
pub enum StagedFileError {
    /// The file does not have the tag that is on record for it.
    Corrupted,
    /// Fewer bytes reached the destination than were read.
    ShortWrite { read: usize, written: usize },
    /// A file cannot be uploaded unprotected.
    UnsupportedType,
    /// The tag that the protected file reports is no tag.
    MalformedTag,
}

/// A file of a task on the worker: where it is, the key it is protected
/// under, and its authentication tag.
#[derive(Debug)]
pub struct StagedFileInfo {
    pub path: String,
    pub crypto_info: TeaclaveFile128Key,
    pub cmac: FileAuthTag,
}

impl Clone for StagedFileInfo {
    fn clone(&self) -> (copy: Self)
        ensures
            copy == *self,
    {
        StagedFileInfo { path: self.path.clone(), crypto_info: self.crypto_info, cmac: self.cmac }
    }
}

/// What has to be done to a staged file to upload it.
#[derive(Clone, Copy, Debug)]
#[allow(inconsistent_fields)]
pub enum UploadPlan {
    /// Write it anew as a protected file under this key.
    Reprotect { key: [u8; 16] },
    /// Encrypt its content with AES-GCM under a key of 128 bits.
    Encrypt128 { key: [u8; 16], iv: [u8; 12] },
    /// Encrypt its content with AES-GCM under a key of 256 bits.
    Encrypt256 { key: [u8; 32], iv: [u8; 12] },
}

/// What a copy does after a read.
#[derive(Clone, Copy, Debug, PartialEq, Eq, Structural)]
pub enum CopyStep {
    /// Nothing was read: the copy is complete.
    Finish,
    /// Bytes were read: write them.
    Write,
}

/// How a file protected as `crypto` is uploaded, if it can be.
pub open spec fn upload_plan(crypto: FileCrypto) -> Result<UploadPlan, StagedFileError> {
    match crypto {
        FileCrypto::TeaclaveFile128 { key } => Ok(UploadPlan::Reprotect { key }),
        FileCrypto::AesGcm128 { key, iv } => Ok(UploadPlan::Encrypt128 { key, iv }),
        FileCrypto::AesGcm256 { key, iv } => Ok(UploadPlan::Encrypt256 { key, iv }),
        FileCrypto::Raw => Err(StagedFileError::UnsupportedType),
    }
}

impl StagedFileInfo {
    /// The staged file at `path`, protected under `crypto_info`, with the
    /// tag `cmac`.
    pub fn new(path: &str, crypto_info: TeaclaveFile128Key, cmac: FileAuthTag) -> (file: Self)
        ensures
            file.path@ == path@,
            file.crypto_info == crypto_info,
            file.cmac == cmac,
    {
        StagedFileInfo { path: String::from_str(path), crypto_info, cmac }
    }

    /// Whether the staged file may be read: `tag`, the tag that the opened
    /// file reports, must be the tag on record.
    pub fn create_readable_io(&self, tag: &FileAuthTag) -> (allowed: Result<(), StagedFileError>)
        ensures
            tag@ == self.cmac@ ==> allowed is Ok,
            tag@ != self.cmac@ ==> allowed == Err::<(), StagedFileError>(
                StagedFileError::Corrupted,
            ),
    {
        if self.cmac.same_as(tag) {
            Ok(())
        } else {
            Err(StagedFileError::Corrupted)
        }
    }

    /// How the staged file is uploaded where the destination is protected as
    /// `crypto_info`.
    pub fn convert_for_uploading(&self, crypto_info: FileCrypto) -> (plan: Result<
        UploadPlan,
        StagedFileError,
    >)
        ensures
            plan == upload_plan(crypto_info),
    {
        match crypto_info {
            FileCrypto::TeaclaveFile128 { key } => Ok(UploadPlan::Reprotect { key }),
            FileCrypto::AesGcm128 { key, iv } => Ok(UploadPlan::Encrypt128 { key, iv }),
            FileCrypto::AesGcm256 { key, iv } => Ok(UploadPlan::Encrypt256 { key, iv }),
            FileCrypto::Raw => Err(StagedFileError::UnsupportedType),
        }
    }

    /// What a copy to a protected file does after a read of `read` bytes.
    pub fn after_read(read: usize) -> (step: CopyStep)
        ensures
            step == if read == 0 {
                CopyStep::Finish
            } else {
                CopyStep::Write
            },
    {
        if read == 0 {
            CopyStep::Finish
        } else {
            CopyStep::Write
        }
    }

    /// Whether a copy goes on after a write: all the bytes read must have
    /// been written.
    pub fn after_write(read: usize, written: usize) -> (done: Result<(), StagedFileError>)
        ensures
            read == written ==> done is Ok,
            read != written ==> done == Err::<(), StagedFileError>(
                StagedFileError::ShortWrite { read, written },
            ),
    {
        if read == written {
            Ok(())
        } else {
            Err(StagedFileError::ShortWrite { read, written })
        }
    }

    /// The tag of a file that has been written, from what the protected file
    /// reports as its tag.
    pub fn convert_to_teaclave_file(mac: &[u8]) -> (tag: Result<FileAuthTag, StagedFileError>)
        ensures
            mac@.len() == 16 ==> tag is Ok && tag.unwrap()@ == mac@,
            mac@.len() != 16 ==> tag == Err::<FileAuthTag, StagedFileError>(
                StagedFileError::MalformedTag,
            ),
    {
        match FileAuthTag::from_bytes(mac) {
            Some(tag) => Ok(tag),
            None => Err(StagedFileError::MalformedTag),
        }
    }
}

/// The staged files of a task, by name.
pub struct StagedFiles {
    entries: NameMap<StagedFileInfo>,
}

impl View for StagedFiles {
    type V = Map<Seq<char>, StagedFileInfo>;

    closed spec fn view(&self) -> Map<Seq<char>, StagedFileInfo> {
        self.entries@
    }
}

impl Default for StagedFiles {
    /// No staged files.
    fn default() -> (files: Self)
        ensures
            files@ == Map::<Seq<char>, StagedFileInfo>::empty(),
    {
        StagedFiles { entries: NameMap::new() }
    }
}

impl StagedFiles {
    /// The staged files `entries`.
    pub fn new(entries: NameMap<StagedFileInfo>) -> (files: Self)
        ensures
            files@ == entries@,
    {
        StagedFiles { entries }
    }

    /// The staged files named in `pairs`; of two files of one name the later
    /// one counts.
    pub fn from_pairs(pairs: Vec<(String, StagedFileInfo)>) -> (files: Self)
        ensures
            files@ == crate::table::bindings(pairs@),
    {
        let mut entries: NameMap<StagedFileInfo> = NameMap::new();
        let mut pairs = pairs;
        let ghost all = pairs@;
        let mut taken: Vec<(String, StagedFileInfo)> = Vec::new();
        while pairs.len() > 0
            invariant
                taken@.len() + pairs@.len() == all.len(),
                forall|j: int| 0 <= j < pairs@.len() ==> pairs@[j] == all[j],
                forall|j: int|
                    0 <= j < taken@.len() ==> taken@[j] == all[all.len() - 1 - j],
            decreases pairs@.len(),
        {
            let pair = pairs.pop().unwrap();
            taken.push(pair);
        }
        let ghost mut done: int = 0;
        while taken.len() > 0
            invariant
                0 <= done <= all.len(),
                taken@.len() + done == all.len(),
                forall|j: int|
                    0 <= j < taken@.len() ==> taken@[j] == all[all.len() - 1 - j],
                entries@ == crate::table::bindings(all.take(done)),
            decreases taken@.len(),
        {
            let pair = taken.pop().unwrap();
            proof {
                assert(pair == all[done]);
                assert(all.take(done + 1).drop_last() =~= all.take(done));
                assert(all.take(done + 1).last() == all[done]);
                done = done + 1;
            }
            entries.insert(pair.0, pair.1);
        }
        proof {
            assert(all.take(done) =~= all);
        }
        StagedFiles { entries }
    }

    /// The staged file named `key`, if there is one.
    pub fn get(&self, key: &str) -> (file: Option<&StagedFileInfo>)
        ensures
            self@.contains_key(key@) ==> file == Some(&self@[key@]),
            !self@.contains_key(key@) ==> file is None,
    {
        let name = String::from_str(key);
        self.entries.get(&name)
    }

    /// The number of staged files.
    pub fn len(&self) -> (count: usize)
        ensures
            count == self@.dom().len(),
            self@.dom().finite(),
    {
        let count = self.entries.len();
        proof {
            crate::table::lemma_size(self.entries.entries());
        }
        count
    }

    /// Whether there is no staged file.
    pub fn is_empty(&self) -> (empty: bool)
        ensures
            empty == (self@.dom().len() == 0),
            self@.dom().finite(),
    {
        self.len() == 0
    }
}

} // verus!
