//! The directory that the audit index lives in: every file of the index is
//! a blob of the key-value store, under the key `tantivy/` followed by the
//! file's name.

use crate::kv::KvStore;
use vstd::prelude::*;
use vstd::string::*;

verus! {

/// What every key of the directory begins with.
pub open spec fn db_prefix() -> Seq<char> {
    "tantivy/"@
}

/// The name of the file that holds the index's meta data; a write to it is
/// told to the watchers.
pub open spec fn meta_filepath() -> Seq<char> {
    "meta.json"@
}

/// The name of the writer's lock file; it is removed when a directory is
/// opened.
pub open spec fn writer_lock() -> Seq<char> {
    ".tantivy-writer.lock"@
}

/// The key of the file named `path`.
pub open spec fn key_of(path: Seq<char>) -> Seq<u8> {
    vstd::utf8::encode_utf8(db_prefix() + path)
}

/// The key of the file named `path`.
pub fn blob_key(path: &str) -> (key: Vec<u8>)
    ensures
        key@ == key_of(path@),
{
    let mut name = String::from_str("tantivy/");
    name.append(path);
    name.as_str().as_bytes_vec()
}

/// Why a file could not be opened.
#[derive(Debug)]
pub enum DirectoryError {
    /// No file of that name is in the directory.
    FileDoesNotExist(String),
    /// A file of that name is in the directory already.
    FileAlreadyExists(String),
    /// The position of a write or a seek cannot be represented.
    InvalidPosition,
}

/// A directory that keeps everything in the key-value store.
pub struct DbDirectory {
    pub db: KvStore,
}

/// Where a seek starts from, and how far it goes.
#[derive(Clone, Copy, Debug, PartialEq, Eq, Structural)]
pub enum SeekFrom {
    Start(u64),
    End(i64),
    Current(i64),
}

/// A file that is being written: its bytes gather in memory and reach the
/// store when the file is flushed.
pub struct Cache {
    pub path: String,
    pub data: Vec<u8>,
    pub position: u64,
    pub is_flushed: bool,
}

/// The bytes of a file after `buffer` has been written at `position`: a gap
/// between the end of the file and the position is filled with zeros, bytes
/// under the buffer are overwritten, bytes behind it stay.
pub open spec fn written(data: Seq<u8>, position: int, buffer: Seq<u8>) -> Seq<u8> {
    let padded = if position > data.len() {
        data + Seq::new((position - data.len()) as nat, |i: int| 0u8)
    } else {
        data
    };
    let tail = if position + buffer.len() < padded.len() {
        padded.subrange(position + buffer.len(), padded.len() as int)
    } else {
        Seq::empty()
    };
    padded.subrange(0, position) + buffer + tail
}

/// The position that a seek leads to, or `None` where it would lie before
/// the start or beyond what can be represented.
pub open spec fn sought(length: int, position: int, to: SeekFrom) -> Option<u64> {
    let target = match to {
        SeekFrom::Start(n) => n as int,
        SeekFrom::End(n) => length + n,
        SeekFrom::Current(n) => position + n,
    };
    if 0 <= target <= u64::MAX {
        Some(target as u64)
    } else {
        None
    }
}

impl Cache {
    /// A new, empty file named `path`. Nothing has to be flushed yet.
    pub fn new(path: String) -> (cache: Self)
        ensures
            cache.path == path,
            cache.data@.len() == 0,
            cache.position == 0,
            cache.is_flushed,
    {
        Cache { path, data: Vec::new(), position: 0, is_flushed: true }
    }

    /// Moves the position.
    pub fn seek(&mut self, to: SeekFrom) -> (position: Result<u64, DirectoryError>)
        requires
            old(self).data@.len() <= u64::MAX,
        ensures
            final(self).path == old(self).path,
            final(self).data == old(self).data,
            final(self).is_flushed == old(self).is_flushed,
            match sought(old(self).data@.len() as int, old(self).position as int, to) {
                Some(target) => position matches Ok(reached) && reached == target
                    && final(self).position == target,
                None => position matches Err(DirectoryError::InvalidPosition)
                    && final(self).position == old(self).position,
            },
    {
        let length = self.data.len() as u64;
        let target: Option<u64> = match to {
            SeekFrom::Start(n) => Some(n),
            SeekFrom::End(n) => offset(length, n),
            SeekFrom::Current(n) => offset(self.position, n),
        };
        match target {
            Some(reached) => {
                self.position = reached;
                Ok(reached)
            },
            None => Err(DirectoryError::InvalidPosition),
        }
    }

    /// Writes `buffer` at the position and moves the position behind it.
    /// From now on the file has to be flushed.
    pub fn write(&mut self, buffer: &[u8]) -> (count: Result<usize, DirectoryError>)
        ensures
            final(self).path == old(self).path,
            old(self).position + buffer@.len() > usize::MAX ==> (count matches Err(
                DirectoryError::InvalidPosition,
            ) && final(self).data == old(self).data && final(self).position == old(self).position
                && final(self).is_flushed == old(self).is_flushed),
            old(self).position + buffer@.len() <= usize::MAX ==> count == Ok::<
                usize,
                DirectoryError,
            >(buffer@.len() as usize) && final(self).data@ == written(
                old(self).data@,
                old(self).position as int,
                buffer@,
            ) && final(self).position == old(self).position + buffer@.len() && !final(self).is_flushed,
    {
        if self.position > usize::MAX as u64 || buffer.len() > usize::MAX - (
        self.position as usize) {
            return Err(DirectoryError::InvalidPosition);
        }
        let start = self.position as usize;
        while self.data.len() < start
            invariant
                self.path == old(self).path,
                self.position == old(self).position,
                self.is_flushed == old(self).is_flushed,
                old(self).data@.len() <= self.data@.len(),
                self.data@.len() <= start || self.data@ == old(self).data@,
                self.data@.subrange(0, old(self).data@.len() as int) == old(self).data@,
                forall|j: int| old(self).data@.len() <= j < self.data@.len() ==> self.data@[j] == 0,
            decreases start - self.data@.len(),
        {
            let ghost before = self.data@;
            self.data.push(0);
            assert(self.data@.subrange(0, old(self).data@.len() as int) =~= before.subrange(
                0,
                old(self).data@.len() as int,
            ));
        }
        let ghost padded = self.data@;
        proof {
            let expected = if start > old(self).data@.len() {
                old(self).data@ + Seq::new((start - old(self).data@.len()) as nat, |i: int| 0u8)
            } else {
                old(self).data@
            };
            assert(padded =~= expected) by {
                assert(padded.subrange(0, old(self).data@.len() as int) == old(self).data@);
                assert forall|j: int| 0 <= j < padded.len() implies padded[j] == expected[j] by {
                    if j < old(self).data@.len() {
                        assert(padded.subrange(0, old(self).data@.len() as int)[j] == padded[j]);
                    }
                }
            }
        }
        let mut i: usize = 0;
        while i < buffer.len()
            invariant
                i <= buffer@.len(),
                start + buffer@.len() <= usize::MAX,
                start <= padded.len(),
                self.path == old(self).path,
                self.position == old(self).position,
                self.is_flushed == old(self).is_flushed,
                self.data@.len() == if start + i > padded.len() {
                    (start + i) as nat
                } else {
                    padded.len()
                },
                forall|j: int| 0 <= j < start ==> self.data@[j] == padded[j],
                forall|j: int| 0 <= j < i ==> self.data@[start + j] == buffer@[j],
                forall|j: int| start + i <= j < self.data@.len() ==> self.data@[j] == padded[j],
            decreases buffer@.len() - i,
        {
            if start + i < self.data.len() {
                self.data.set(start + i, buffer[i]);
            } else {
                self.data.push(buffer[i]);
            }
            i += 1;
        }
        proof {
            assert(self.data@ =~= written(old(self).data@, start as int, buffer@));
        }
        self.position = (start + buffer.len()) as u64;
        self.is_flushed = false;
        Ok(buffer.len())
    }

    /// Puts the bytes of the file into the store of `directory`. After that
    /// nothing has to be flushed.
    pub fn flush(&mut self, directory: &mut DbDirectory)
        ensures
            final(self).path == old(self).path,
            final(self).data == old(self).data,
            final(self).position == old(self).position,
            final(self).is_flushed,
            final(directory).db@ == old(directory).db@.insert(
                key_of(old(self).path@),
                old(self).data@,
            ),
    {
        self.is_flushed = true;
        let data = self.data.clone();
        assert(data@ =~= self.data@);
        directory.db.put(blob_key(self.path.as_str()), data);
    }

    /// Ends the writing of the file: flushes it.
    pub fn terminate(&mut self, directory: &mut DbDirectory)
        ensures
            final(self).path == old(self).path,
            final(self).data == old(self).data,
            final(self).position == old(self).position,
            final(self).is_flushed,
            final(directory).db@ == old(directory).db@.insert(
                key_of(old(self).path@),
                old(self).data@,
            ),
    {
        self.flush(directory)
    }

    /// Lets go of the file: a file that has not been flushed since its last
    /// write is flushed.
    pub fn release(self, directory: &mut DbDirectory)
        ensures
            self.is_flushed ==> final(directory).db@ == old(directory).db@,
            !self.is_flushed ==> final(directory).db@ == old(directory).db@.insert(
                key_of(self.path@),
                self.data@,
            ),
    {
        let mut cache = self;
        if !cache.is_flushed {
            cache.flush(directory);
        }
    }
}

/// The position `distance` away from `base`, where it can be represented.
fn offset(base: u64, distance: i64) -> (target: Option<u64>)
    ensures
        target == if 0 <= base + distance <= u64::MAX {
            Some((base + distance) as u64)
        } else {
            None
        },
{
    if distance >= 0 {
        base.checked_add(distance as u64)
    } else {
        let back: u64 = if distance == i64::MIN {
            0x8000_0000_0000_0000u64
        } else {
            (-distance) as u64
        };
        if back > base {
            None
        } else {
            Some(base - back)
        }
    }
}

impl DbDirectory {
    /// The directory over `db`. A lock file left by an earlier writer is
    /// removed.
    pub fn new(db: KvStore) -> (directory: Self)
        ensures
            directory.db@ == db@.remove(key_of(writer_lock())),
    {
        let mut directory = DbDirectory { db };
        let _ = directory.delete(".tantivy-writer.lock");
        directory
    }

    /// Stores `data` as the file named `path`.
    pub fn write(&mut self, path: &str, data: &[u8])
        ensures
            final(self).db@ == old(self).db@.insert(key_of(path@), data@),
    {
        let bytes = vstd::slice::slice_to_vec(data);
        self.db.put(blob_key(path), bytes);
    }

    /// The bytes of the file named `path`.
    pub fn open_read(&self, path: &str) -> (bytes: Result<Vec<u8>, DirectoryError>)
        ensures
            self.db@.contains_key(key_of(path@)) ==> bytes is Ok && bytes.unwrap()@
                == self.db@[key_of(path@)],
            !self.db@.contains_key(key_of(path@)) ==> (bytes matches Err(
                DirectoryError::FileDoesNotExist(name),
            ) && name@ == path@),
    {
        match self.db.get(&blob_key(path)) {
            Some(bytes) => Ok(bytes),
            None => Err(DirectoryError::FileDoesNotExist(String::from_str(path))),
        }
    }

    /// Removes the file named `path`. Removing a file that is not there is
    /// no failure.
    pub fn delete(&mut self, path: &str) -> (done: Result<(), DirectoryError>)
        ensures
            done is Ok,
            final(self).db@ == old(self).db@.remove(key_of(path@)),
    {
        self.db.delete(&blob_key(path));
        Ok(())
    }

    /// Whether a file named `path` is in the directory.
    pub fn has_file(&self, path: &str) -> (present: bool)
        ensures
            present == self.db@.contains_key(key_of(path@)),
    {
        self.db.contains(&blob_key(path))
    }

    /// Opens a new file named `path` for writing. Where a file of that name
    /// is there already, it is emptied and the opening fails.
    pub fn open_write(&mut self, path: &str) -> (opened: Result<Cache, DirectoryError>)
        ensures
            old(self).db@.contains_key(key_of(path@)) ==> (opened matches Err(
                DirectoryError::FileAlreadyExists(name),
            ) && name@ == path@ && final(self).db@ == old(self).db@.insert(
                key_of(path@),
                Seq::<u8>::empty(),
            )),
            !old(self).db@.contains_key(key_of(path@)) ==> (opened matches Ok(cache)
                && cache.path@ == path@ && cache.data@.len() == 0 && cache.position == 0
                && cache.is_flushed && final(self).db@ == old(self).db@),
    {
        if self.has_file(path) {
            let nothing: Vec<u8> = Vec::new();
            self.db.put(blob_key(path), nothing);
            Err(DirectoryError::FileAlreadyExists(String::from_str(path)))
        } else {
            Ok(Cache::new(String::from_str(path)))
        }
    }

    /// The bytes of the file named `path`, read at once.
    pub fn atomic_read(&self, path: &str) -> (bytes: Result<Vec<u8>, DirectoryError>)
        ensures
            self.db@.contains_key(key_of(path@)) ==> bytes is Ok && bytes.unwrap()@
                == self.db@[key_of(path@)],
            !self.db@.contains_key(key_of(path@)) ==> (bytes matches Err(
                DirectoryError::FileDoesNotExist(name),
            ) && name@ == path@),
    {
        self.open_read(path)
    }

    /// Stores `data` as the file named `path`, at once, and says whether the
    /// watchers have to be told: they are told of a write to the meta file.
    pub fn atomic_write(&mut self, path: &str, data: &[u8]) -> (broadcast: bool)
        ensures
            final(self).db@ == old(self).db@.insert(key_of(path@), data@),
            broadcast == (path@ == meta_filepath()),
    {
        self.write(path, data);
        String::from_str(path) == String::from_str("meta.json")
    }
}

} // verus!
