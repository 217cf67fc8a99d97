//! Device-resident tensor sets, modeled.
//!
//! The runtime owns device memory and hands out opaque per-tensor
//! handles; here each handle is an index into an owning registry of named
//! byte buffers, so release is deterministic on every exit path and the
//! marshalling logic over the buffers can be verified.

use vstd::prelude::*;

use crate::catalog::bytes_eq;
use crate::nrt::NrtStatus;

verus! {

/// Mathematical view of one device tensor: its name and its bytes.
#[verifier::ext_equal]
pub ghost struct EntryV {
    pub name: Seq<u8>,
    pub data: Seq<u8>,
}

/// One device-resident tensor: a named byte buffer of fixed length.
pub struct DeviceTensor {
    pub name: Vec<u8>,
    pub data: Vec<u8>,
}

impl View for DeviceTensor {
    type V = EntryV;

    open spec fn view(&self) -> EntryV {
        EntryV { name: self.name@, data: self.data@ }
    }
}

/// Mathematical view of a tensor set.
#[verifier::ext_equal]
pub ghost struct TensorSetV {
    pub usage: u32,
    pub entries: Seq<EntryV>,
}

/// A named collection of device tensors allocated for one direction.
/// Exactly one set exists per direction per run; it owns its buffers, so
/// dropping it releases all of them.
pub struct TensorSet {
    pub usage: u32,
    pub tensors: Vec<DeviceTensor>,
}

impl View for TensorSet {
    type V = TensorSetV;

    open spec fn view(&self) -> TensorSetV {
        TensorSetV { usage: self.usage, entries: self.tensors@.map_values(|t: DeviceTensor| t@) }
    }
}

/// Some entry carries this name.
pub open spec fn contains_name(entries: Seq<EntryV>, name: Seq<u8>) -> bool {
    exists|i: int| 0 <= i < entries.len() && entries[i].name == name
}

/// The index of the entry carrying this name; meaningful when the names
/// are distinct and the name is present.
pub open spec fn index_of_name(entries: Seq<EntryV>, name: Seq<u8>) -> int {
    choose|i: int| 0 <= i < entries.len() && entries[i].name == name
}

/// Pairwise distinct entry names: what registration under a name keeps.
pub open spec fn set_wf(s: TensorSetV) -> bool {
    forall|i: int, j: int| 0 <= i < j < s.entries.len() ==> s.entries[i].name != s.entries[j].name
}

impl TensorSet {
    /// A freshly allocated, empty set for the given direction.
    pub fn empty(usage: u32) -> (r: TensorSet)
        ensures
            r@.usage == usage,
            r@.entries == Seq::<EntryV>::empty(),
    {
        let r = TensorSet { usage, tensors: Vec::new() };
        proof {
            assert(r@.entries =~= Seq::<EntryV>::empty());
        }
        r
    }

    /// Registers a tensor under a name not yet present.
    pub fn add_tensor(&mut self, tensor: DeviceTensor)
        requires
            !contains_name(old(self)@.entries, tensor@.name),
        ensures
            final(self)@.usage == old(self)@.usage,
            final(self)@.entries == old(self)@.entries.push(tensor@),
    {
        self.tensors.push(tensor);
        proof {
            assert(self@.entries =~= old(self)@.entries.push(tensor@));
        }
    }

    /// Resolves a name to its handle, the runtime's lookup: `None` when no
    /// tensor of the set carries the name.
    pub fn get_tensor_index(&self, name: &Vec<u8>) -> (r: Option<usize>)
        ensures
            match r {
                Some(j) => j < self@.entries.len() && self@.entries[j as int].name == name@,
                None => !contains_name(self@.entries, name@),
            },
    {
        let mut j: usize = 0;
        while j < self.tensors.len()
            invariant
                j <= self@.entries.len(),
                self@.entries.len() == self.tensors@.len(),
                forall|k: int| 0 <= k < j ==> self@.entries[k].name != name@,
            decreases self@.entries.len() - j,
        {
            if bytes_eq(&self.tensors[j].name, name) {
                return Some(j);
            }
            j = j + 1;
        }
        None
    }

    /// Writes `bytes` into the tensor at `j`, at offset zero, the
    /// runtime's tensor write.  The device rejects a write past the end of
    /// the buffer and leaves it untouched; otherwise the leading bytes are
    /// replaced and the rest of the buffer keeps its contents.
    pub fn tensor_write(&mut self, j: usize, bytes: &Vec<u8>) -> (r: Result<(), NrtStatus>)
        requires
            j < old(self)@.entries.len(),
        ensures
            final(self)@.usage == old(self)@.usage,
            match r {
                Ok(()) => bytes@.len() <= old(self)@.entries[j as int].data.len() && final(self)@.entries
                    == old(self)@.entries.update(j as int, EntryV { name: old(self)@.entries[j as int].name, data: bytes@ + old(self)@.entries[j as int].data.skip(bytes@.len() as int) }),
                Err(e) => e == NrtStatus::Invalid && bytes@.len() > old(self)@.entries[j as int].data.len()
                    && *final(self) == *old(self),
            },
    {
        if bytes.len() > self.tensors[j].data.len() {
            return Err(NrtStatus::Invalid);
        }
        let ghost orig = self@;
        let mut k: usize = 0;
        while k < bytes.len()
            invariant
                k <= bytes@.len(),
                j < self@.entries.len(),
                self@.usage == orig.usage,
                self@.entries.len() == orig.entries.len(),
                bytes@.len() <= orig.entries[j as int].data.len(),
                forall|i: int| 0 <= i < orig.entries.len() && i != j ==> self@.entries[i]
                    == orig.entries[i],
                self@.entries[j as int].name == orig.entries[j as int].name,
                self@.entries[j as int].data.len() == orig.entries[j as int].data.len(),
                forall|m: int| 0 <= m < k ==> self@.entries[j as int].data[m] == bytes@[m],
                forall|m: int| k <= m < orig.entries[j as int].data.len() ==> self@.entries[
                    j as int
                ].data[m] == orig.entries[j as int].data[m],
            decreases bytes@.len() - k,
        {
            let b: u8 = bytes[k];
            self.tensors[j].data[k] = b;
            k = k + 1;
        }
        proof {
            assert(self@.entries[j as int].data =~= bytes@ + orig.entries[j as int].data.skip(bytes@.len() as int));
            assert(self@.entries =~= orig.entries.update(j as int, EntryV { name: orig.entries[j as int].name, data: bytes@ + orig.entries[j as int].data.skip(bytes@.len() as int) }));
        }
        Ok(())
    }

    /// Reads `count` bytes of the tensor at `j` from offset zero into a
    /// fresh host buffer, the runtime's tensor read.  The device rejects a
    /// read past the end of the buffer.
    pub fn tensor_read(&self, j: usize, count: usize) -> (r: Result<Vec<u8>, NrtStatus>)
        requires
            j < self@.entries.len(),
        ensures
            match r {
                Ok(bytes) => count <= self@.entries[j as int].data.len() && bytes@ == self@.entries[j as int].data.take(count as int),
                Err(e) => e == NrtStatus::Invalid && count > self@.entries[j as int].data.len(),
            },
    {
        let t = &self.tensors[j];
        if count > t.data.len() {
            return Err(NrtStatus::Invalid);
        }
        let mut out: Vec<u8> = Vec::new();
        let mut k: usize = 0;
        while k < count
            invariant
                k <= count,
                count <= t@.data.len(),
                out@ == t@.data.take(k as int),
            decreases count - k,
        {
            out.push(t.data[k]);
            proof {
                assert(t@.data.take(k + 1) =~= t@.data.take(k as int).push(t@.data[k as int]));
            }
            k = k + 1;
        }
        Ok(out)
    }
}

/// A zero-filled host buffer, the initial contents of freshly allocated
/// device memory in this model.
pub fn zeroed_bytes(n: usize) -> (r: Vec<u8>)
    ensures
        r@ == Seq::new(n as nat, |i: int| 0u8),
{
    let mut out: Vec<u8> = Vec::new();
    let mut k: usize = 0;
    while k < n
        invariant
            k <= n,
            out@ == Seq::new(k as nat, |i: int| 0u8),
        decreases n - k,
    {
        out.push(0u8);
        proof {
            assert(Seq::new((k + 1) as nat, |i: int| 0u8) =~= Seq::new(k as nat, |i: int| 0u8).push(0u8));
        }
        k = k + 1;
    }
    out
}

/// Copies a byte string; names move from catalog entries into tensor
/// sets by value.
pub fn copy_bytes(v: &Vec<u8>) -> (r: Vec<u8>)
    ensures
        r@ == v@,
{
    let mut out: Vec<u8> = Vec::new();
    let mut k: usize = 0;
    while k < v.len()
        invariant
            k <= v@.len(),
            out@ == v@.take(k as int),
        decreases v@.len() - k,
    {
        out.push(v[k]);
        proof {
            assert(v@.take(k + 1) =~= v@.take(k as int).push(v@[k as int]));
        }
        k = k + 1;
    }
    proof {
        assert(v@.take(v@.len() as int) =~= v@);
    }
    out
}

} // verus!
