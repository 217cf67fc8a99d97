//! The tensor catalog: the read-only description of a model's tensors
//! that the device runtime produces after a model load.

use vstd::prelude::*;

use crate::nrt::{dtype_supported, elem_width, usage_valid};

verus! {

/// Mathematical view of one catalog entry.
#[verifier::ext_equal]
pub ghost struct TensorInfoV {
    pub name: Seq<u8>,
    pub dtype: u32,
    pub size: nat,
    pub usage: u32,
}

/// Description of one model tensor: name, data type, byte size and
/// direction.  Names are the runtime's byte strings.
pub struct TensorInfo {
    pub name: Vec<u8>,
    pub dtype: u32,
    pub size: usize,
    pub usage: u32,
}

impl View for TensorInfo {
    type V = TensorInfoV;

    open spec fn view(&self) -> TensorInfoV {
        TensorInfoV { name: self.name@, dtype: self.dtype, size: self.size as nat, usage: self.usage }
    }
}

/// A well-formed entry: a valid direction, a data type this engine can
/// decode, and a size that is a whole number of elements.
pub open spec fn info_wf(t: TensorInfoV) -> bool {
    &&& usage_valid(t.usage)
    &&& dtype_supported(t.dtype)
    &&& t.size % elem_width(t.dtype) == 0
}

/// A well-formed catalog: well-formed entries with pairwise distinct names.
pub open spec fn catalog_wf(c: Seq<TensorInfoV>) -> bool {
    &&& forall|i: int| 0 <= i < c.len() ==> info_wf(#[trigger] c[i])
    &&& forall|i: int, j: int| 0 <= i < j < c.len() ==> c[i].name != c[j].name
}

/// Ordered sequence of tensor descriptions for one loaded model.
pub struct TensorInfoCatalog {
    pub entries: Vec<TensorInfo>,
}

impl View for TensorInfoCatalog {
    type V = Seq<TensorInfoV>;

    open spec fn view(&self) -> Seq<TensorInfoV> {
        self.entries@.map_values(|t: TensorInfo| t@)
    }
}

impl TensorInfoCatalog {
    /// Number of entries.
    pub fn len(&self) -> (n: usize)
        ensures
            n == self@.len(),
    {
        self.entries.len()
    }

    /// Builds a catalog after checking well-formedness; `None` when an
    /// entry has an invalid direction, an unsupported data type, a size
    /// that is not a whole number of elements, or a repeated name.
    pub fn from_entries(entries: Vec<TensorInfo>) -> (r: Option<TensorInfoCatalog>)
        ensures
            match r {
                Some(c) => c.entries@ == entries@ && catalog_wf(c@),
                None => !catalog_wf(entries@.map_values(|t: TensorInfo| t@)),
            },
    {
        let ghost view: Seq<TensorInfoV> = entries@.map_values(|t: TensorInfo| t@);
        let n: usize = entries.len();
        let mut i: usize = 0;
        while i < n
            invariant
                i <= n,
                n == entries@.len(),
                view == entries@.map_values(|t: TensorInfo| t@),
                forall|k: int| 0 <= k < i ==> info_wf(#[trigger] view[k]),
                forall|k: int, l: int| 0 <= k < l < i ==> view[k].name != view[l].name,
            decreases n - i,
        {
            let t = &entries[i];
            let usage_ok: bool = crate::nrt::check_usage_valid(t.usage);
            let dtype_ok: bool = t.dtype == crate::nrt::NRT_DTYPE_FLOAT32 || t.dtype
                == crate::nrt::NRT_DTYPE_UINT8;
            let width: usize = if t.dtype == crate::nrt::NRT_DTYPE_FLOAT32 {
                4
            } else {
                1
            };
            if !(usage_ok && dtype_ok && t.size % width == 0) {
                assert(!info_wf(view[i as int]));
                return None;
            }
            let mut j: usize = 0;
            while j < i
                invariant
                    j <= i,
                    i < n,
                    n == entries@.len(),
                    view == entries@.map_values(|t: TensorInfo| t@),
                    forall|k: int| 0 <= k < j ==> view[k].name != view[i as int].name,
                decreases i - j,
            {
                if bytes_eq(&entries[j].name, &entries[i].name) {
                    assert(view[j as int].name == view[i as int].name);
                    return None;
                }
                j = j + 1;
            }
            i = i + 1;
        }
        Some(TensorInfoCatalog { entries })
    }
}

/// Byte-string equality, the comparison the runtime applies to names.
pub fn bytes_eq(a: &Vec<u8>, b: &Vec<u8>) -> (r: bool)
    ensures
        r == (a@ == b@),
{
    if a.len() != b.len() {
        assert(a@ != b@);
        return false;
    }
    let mut i: usize = 0;
    while i < a.len()
        invariant
            i <= a@.len(),
            a@.len() == b@.len(),
            forall|k: int| 0 <= k < i ==> a@[k] == b@[k],
        decreases a@.len() - i,
    {
        if a[i] != b[i] {
            return false;
        }
        i = i + 1;
    }
    proof {
        assert(a@ =~= b@);
    }
    true
}

} // verus!
