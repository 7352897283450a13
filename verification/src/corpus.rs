use vstd::prelude::*;
use crate::error::Error;
use crate::input::BytesInput;

verus! {

/// One typed metadata record: a stable integer tag and an opaque payload.
/// Downcasts of the payload happen at the boundary that knows the tag.
#[derive(Clone, Debug)]
pub struct MetadataEntry {
    pub key: u64,
    pub blob: Vec<u8>,
}

/// What a lookup by key yields in a metadata record list: the payload of
/// the first record carrying the key.
pub open spec fn spec_metadata_lookup(entries: Seq<MetadataEntry>, key: u64) -> Option<Seq<u8>>
    decreases entries.len(),
{
    if entries.len() == 0 {
        None
    } else if entries[0].key == key {
        Some(entries[0].blob@)
    } else {
        spec_metadata_lookup(entries.skip(1), key)
    }
}

/// A map from typed keys to opaque payloads, held by testcases and by the
/// fuzzer state.
#[derive(Clone, Debug)]
pub struct MetadataMap {
    pub entries: Vec<MetadataEntry>,
}

impl MetadataMap {
    pub fn new() -> (r: Self)
        ensures
            r.entries@ =~= Seq::<MetadataEntry>::empty(),
    {
        MetadataMap { entries: Vec::new() }
    }

    /// Records a payload under a key. A later record with the same key is
    /// shadowed by an earlier one, so the record is put in front.
    pub fn insert(&mut self, key: u64, blob: Vec<u8>)
        requires
            old(self).entries@.len() < usize::MAX,
        ensures
            final(self).entries@ == old(self).entries@.insert(0, MetadataEntry { key, blob }),
            spec_metadata_lookup(final(self).entries@, key) == Some::<Seq<u8>>(blob@),
    {
        let ghost pre = self.entries@;
        self.entries.insert(0, MetadataEntry { key, blob });
        proof {
            assert(self.entries@.skip(1) =~= pre);
        }
    }

    /// Looks a key up; `KeyNotFound` exactly when no record carries it.
    pub fn get(&self, key: u64) -> (r: Result<&Vec<u8>, Error>)
        ensures
            match r {
                Ok(blob) => spec_metadata_lookup(self.entries@, key) == Some(blob@),
                Err(e) => spec_metadata_lookup(self.entries@, key) is None && e is KeyNotFound,
            },
    {
        let n = self.entries.len();
        let mut i: usize = 0;
        proof {
            assert(self.entries@.skip(0) =~= self.entries@);
        }
        while i < n
            invariant
                n == self.entries@.len(),
                i <= n,
                spec_metadata_lookup(self.entries@, key) == spec_metadata_lookup(
                    self.entries@.skip(i as int),
                    key,
                ),
            decreases n - i,
        {
            proof {
                assert(self.entries@.skip(i as int)[0] == self.entries@[i as int]);
                assert(self.entries@.skip(i as int).skip(1) =~= self.entries@.skip(i + 1));
            }
            if self.entries[i].key == key {
                return Ok(&self.entries[i].blob);
            }
            i = i + 1;
        }
        proof {
            assert(self.entries@.skip(n as int) =~= Seq::<MetadataEntry>::empty());
        }
        Err(Error::KeyNotFound("no metadata record carries this key".to_owned()))
    }

    /// Whether some record carries the key.
    pub fn has(&self, key: u64) -> (r: bool)
        ensures
            r == (spec_metadata_lookup(self.entries@, key) is Some),
    {
        match self.get(key) {
            Ok(_) => true,
            Err(_) => false,
        }
    }
}

/// A testcase: an input together with an optional on-disk file name, a
/// typed metadata map, and cached execution statistics. It either owns its
/// input in memory or the input can be brought back from its file, and both
/// paths yield byte-identical content.
#[derive(Clone, Debug)]
pub struct Testcase {
    pub input: Option<BytesInput>,
    pub filename: Option<String>,
    pub metadata: MetadataMap,
    pub exec_time_ns: Option<u64>,
}

impl Testcase {
    pub fn new(input: BytesInput) -> (r: Self)
        ensures
            r.input == Some(input),
            r.filename is None,
            r.metadata.entries@ =~= Seq::<MetadataEntry>::empty(),
            r.exec_time_ns is None,
    {
        Testcase { input: Some(input), filename: None, metadata: MetadataMap::new(), exec_time_ns: None }
    }

    /// Hands the in-memory input out; `EmptyOptional` exactly when the
    /// input is not in memory (it then lives in the file named by
    /// `filename`, which only the surrounding program can read).
    pub fn load_input(&self) -> (r: Result<&BytesInput, Error>)
        ensures
            match r {
                Ok(input) => self.input == Some(*input),
                Err(e) => self.input is None && e is EmptyOptional,
            },
    {
        match &self.input {
            Some(input) => Ok(input),
            None => Err(Error::EmptyOptional("the input of this testcase is not in memory".to_owned())),
        }
    }

    /// Brings an input loaded from this testcase's file back into memory.
    pub fn set_loaded_input(&mut self, input: BytesInput)
        ensures
            final(self).input == Some(input),
            final(self).filename == old(self).filename,
            final(self).metadata == old(self).metadata,
            final(self).exec_time_ns == old(self).exec_time_ns,
    {
        self.input = Some(input);
    }

    pub fn set_exec_time_ns(&mut self, t: u64)
        ensures
            final(self).exec_time_ns == Some(t),
            final(self).input == old(self).input,
            final(self).filename == old(self).filename,
            final(self).metadata == old(self).metadata,
    {
        self.exec_time_ns = Some(t);
    }
}

/// An ordered collection of testcases with O(1) count, get-by-index and
/// add. Indices are stable between adds; `add` returns the new index.
#[derive(Clone, Debug)]
pub struct Corpus {
    pub entries: Vec<Testcase>,
}

impl Corpus {
    pub fn new() -> (r: Self)
        ensures
            r.entries@ =~= Seq::<Testcase>::empty(),
    {
        Corpus { entries: Vec::new() }
    }

    pub fn count(&self) -> (r: usize)
        ensures
            r == self.entries@.len(),
    {
        self.entries.len()
    }

    /// Adds a testcase; the result is its index, the count before the add.
    pub fn add(&mut self, testcase: Testcase) -> (r: Result<usize, Error>)
        requires
            old(self).entries@.len() < usize::MAX,
        ensures
            final(self).entries@ == old(self).entries@.push(testcase),
            r is Ok,
            r == Ok::<usize, Error>(old(self).entries@.len() as usize),
    {
        let idx = self.entries.len();
        self.entries.push(testcase);
        Ok(idx)
    }

    /// Gets by index; out-of-range exactly when the index is not below the
    /// count.
    pub fn get(&self, idx: usize) -> (r: Result<&Testcase, Error>)
        ensures
            match r {
                Ok(tc) => idx < self.entries@.len() && *tc == self.entries@[idx as int],
                Err(e) => idx >= self.entries@.len() && e is KeyNotFound,
            },
    {
        if idx < self.entries.len() {
            Ok(&self.entries[idx])
        } else {
            Err(Error::KeyNotFound("corpus index out of range".to_owned()))
        }
    }

    /// Replaces the testcase at a valid index (used to cache statistics and
    /// re-loaded inputs).
    pub fn replace(&mut self, idx: usize, testcase: Testcase) -> (r: Result<(), Error>)
        ensures
            match r {
                Ok(()) => idx < old(self).entries@.len() && final(self).entries@ == old(
                    self,
                ).entries@.update(idx as int, testcase),
                Err(e) => idx >= old(self).entries@.len() && e is KeyNotFound && *final(self)
                    == *old(self),
            },
    {
        if idx < self.entries.len() {
            self.entries[idx] = testcase;
            Ok(())
        } else {
            Err(Error::KeyNotFound("corpus index out of range".to_owned()))
        }
    }
}

} // verus!
