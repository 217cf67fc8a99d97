//! The tensor-set engine: allocation, value loading, and dispatch over a
//! catalog with a pluggable per-tensor handler.

use vstd::prelude::*;

use crate::catalog::{catalog_wf, TensorInfo, TensorInfoCatalog, TensorInfoV};
use crate::nrt::{dtype_supported, usage_valid, NrtStatus};
use crate::tensor_set::{
    contains_name, copy_bytes, index_of_name, set_wf, zeroed_bytes, DeviceTensor, EntryV,
    TensorSet, TensorSetV,
};
use crate::xla_runner::{empty_output_for, output_len, Output, OutputV};

verus! {

/// Pairwise distinct entry names.
pub open spec fn names_distinct(entries: Seq<EntryV>) -> bool {
    forall|i: int, j: int| 0 <= i < j < entries.len() ==> entries[i].name != entries[j].name
}

/// With distinct names, resolution of an entry's own name finds exactly
/// that entry.
pub proof fn lemma_index_of_name_unique(entries: Seq<EntryV>, j: int)
    requires
        names_distinct(entries),
        0 <= j < entries.len(),
    ensures
        contains_name(entries, entries[j].name),
        index_of_name(entries, entries[j].name) == j,
{
    assert(contains_name(entries, entries[j].name));
    let k = index_of_name(entries, entries[j].name);
    assert(0 <= k < entries.len() && entries[k].name == entries[j].name);
    if k != j {
        if k < j {
            assert(entries[k].name != entries[j].name);
        } else {
            assert(entries[j].name != entries[k].name);
        }
    }
}

/// The zero-filled entry a device allocation creates for a catalog entry.
pub open spec fn zeroed_entry(info: TensorInfoV) -> EntryV {
    EntryV { name: info.name, data: Seq::new(info.size, |i: int| 0u8) }
}

/// The entries a device allocation creates for one direction: one
/// zero-filled buffer per catalog entry of that direction, in catalog
/// order.
pub open spec fn allocated_entries(catalog: Seq<TensorInfoV>, usage_type: u32) -> Seq<EntryV>
    decreases catalog.len(),
{
    if catalog.len() == 0 {
        Seq::empty()
    } else if catalog.last().usage == usage_type {
        allocated_entries(catalog.drop_last(), usage_type).push(zeroed_entry(catalog.last()))
    } else {
        allocated_entries(catalog.drop_last(), usage_type)
    }
}

/// Number of catalog entries of one direction.
pub open spec fn count_matching(catalog: Seq<TensorInfoV>, usage_type: u32) -> nat
    decreases catalog.len(),
{
    if catalog.len() == 0 {
        0
    } else if catalog.last().usage == usage_type {
        count_matching(catalog.drop_last(), usage_type) + 1
    } else {
        count_matching(catalog.drop_last(), usage_type)
    }
}

/// The entry is the zero-filled image of some catalog entry of the given
/// direction.
pub open spec fn from_matching_entry(catalog: Seq<TensorInfoV>, usage_type: u32, e: EntryV) -> bool {
    exists|i: int|
        0 <= i < catalog.len() && (#[trigger] catalog[i]).usage == usage_type && e == zeroed_entry(catalog[i])
}

/// Some entry is the zero-filled image of this catalog entry.
pub open spec fn holds_zeroed_image(entries: Seq<EntryV>, info: TensorInfoV) -> bool {
    exists|k: int| 0 <= k < entries.len() && #[trigger] entries[k] == zeroed_entry(info)
}

/// Allocation creates handles only for catalog entries of the requested
/// direction, and exactly one per such entry: the allocated set's size
/// equals their count, each allocated buffer is the zero-filled image of
/// one such entry, and each such entry is allocated.
pub proof fn lemma_allocated_entries_shape(catalog: Seq<TensorInfoV>, usage_type: u32)
    ensures
        allocated_entries(catalog, usage_type).len() == count_matching(catalog, usage_type),
        forall|k: int| 0 <= k < allocated_entries(catalog, usage_type).len()
            ==> from_matching_entry(catalog, usage_type, #[trigger] allocated_entries(catalog, usage_type)[k]),
        forall|i: int| 0 <= i < catalog.len() && (#[trigger] catalog[i]).usage == usage_type
            ==> holds_zeroed_image(allocated_entries(catalog, usage_type), catalog[i]),
    decreases catalog.len(),
{
    if catalog.len() > 0 {
        let prefix = catalog.drop_last();
        lemma_allocated_entries_shape(prefix, usage_type);
        let whole = allocated_entries(catalog, usage_type);
        let part = allocated_entries(prefix, usage_type);
        assert forall|k: int| 0 <= k < whole.len() implies from_matching_entry(
            catalog,
            usage_type,
            #[trigger] whole[k],
        ) by {
            if k < part.len() {
                assert(from_matching_entry(prefix, usage_type, part[k]));
                let i = choose|i: int|
                    0 <= i < prefix.len() && (#[trigger] prefix[i]).usage == usage_type && part[k] == zeroed_entry(prefix[i]);
                assert(catalog[i] == prefix[i]);
                assert(catalog[i].usage == usage_type && whole[k] == zeroed_entry(catalog[i]));
            } else {
                let i = catalog.len() - 1;
                assert(catalog[i].usage == usage_type && whole[k] == zeroed_entry(catalog[i]));
            }
        }
        assert forall|i: int| 0 <= i < catalog.len() && (#[trigger] catalog[i]).usage == usage_type
            implies holds_zeroed_image(whole, catalog[i]) by {
            if i < prefix.len() {
                assert(prefix[i] == catalog[i]);
                assert(holds_zeroed_image(part, prefix[i]));
                let k = choose|k: int| 0 <= k < part.len() && #[trigger] part[k] == zeroed_entry(prefix[i]);
                assert(whole[k] == zeroed_entry(catalog[i]));
            } else {
                assert(whole[whole.len() - 1] == zeroed_entry(catalog[i]));
            }
        }
    }
}

/// A name carried by no catalog entry is carried by no allocated entry.
pub proof fn lemma_allocated_entries_fresh(catalog: Seq<TensorInfoV>, usage_type: u32, name: Seq<u8>)
    requires
        forall|i: int| 0 <= i < catalog.len() ==> (#[trigger] catalog[i]).name != name,
    ensures
        !contains_name(allocated_entries(catalog, usage_type), name),
{
    lemma_allocated_entries_shape(catalog, usage_type);
    let whole = allocated_entries(catalog, usage_type);
    if contains_name(whole, name) {
        let k = choose|k: int| 0 <= k < whole.len() && whole[k].name == name;
        assert(from_matching_entry(catalog, usage_type, whole[k]));
        let i = choose|i: int|
            0 <= i < catalog.len() && (#[trigger] catalog[i]).usage == usage_type && whole[k] == zeroed_entry(catalog[i]);
        assert(catalog[i].name == name);
    }
}

/// Creates one device-resident tensor set for a direction: rejects a
/// direction outside the valid pair and an empty catalog, both with the
/// invalid-argument error; otherwise allocates, for every catalog entry
/// of that direction, a zero-filled device buffer of exactly the entry's
/// size, registered under the entry's name.  In this model a device
/// allocation itself does not fail, so those are the only errors.
pub fn allocate_tensors(catalog: &TensorInfoCatalog, usage_type: u32) -> (r: Result<
    TensorSet,
    NrtStatus,
>)
    requires
        catalog_wf(catalog@),
    ensures
        match r {
            Ok(set) => usage_valid(usage_type) && catalog@.len() > 0 && set@.usage == usage_type
                && set@.entries == allocated_entries(catalog@, usage_type) && set_wf(set@),
            Err(e) => e == NrtStatus::Invalid && (!usage_valid(usage_type) || catalog@.len() == 0),
        },
{
    if !crate::nrt::check_usage_valid(usage_type) {
        return Err(NrtStatus::Invalid);
    }
    let mut set = TensorSet::empty(usage_type);
    if catalog.len() == 0 {
        return Err(NrtStatus::Invalid);
    }
    let n: usize = catalog.len();
    let mut i: usize = 0;
    proof {
        assert(catalog@.take(0) =~= Seq::<TensorInfoV>::empty());
    }
    while i < n
        invariant
            i <= n,
            n == catalog@.len(),
            catalog_wf(catalog@),
            set@.usage == usage_type,
            set@.entries == allocated_entries(catalog@.take(i as int), usage_type),
            names_distinct(set@.entries),
        decreases n - i,
    {
        let info = &catalog.entries[i];
        proof {
            assert(info@ == catalog@[i as int]);
        }
        if info.usage == usage_type {
            let name = copy_bytes(&info.name);
            let data = zeroed_bytes(info.size);
            let tensor = DeviceTensor { name, data };
            proof {
                assert(tensor@ == zeroed_entry(catalog@[i as int]));
                assert forall|m: int| 0 <= m < catalog@.take(i as int).len()
                    implies (#[trigger] catalog@.take(i as int)[m]).name != catalog@[i as int].name by {
                    assert(catalog@.take(i as int)[m] == catalog@[m]);
                }
                lemma_allocated_entries_fresh(catalog@.take(i as int), usage_type, catalog@[i as int].name);
            }
            set.add_tensor(tensor);
        }
        proof {
            let before = catalog@.take(i as int);
            let after = catalog@.take(i + 1);
            assert(after.drop_last() =~= before);
            assert(after.last() == catalog@[i as int]);
            if catalog@[i as int].usage == usage_type {
                assert(allocated_entries(after, usage_type) == allocated_entries(before, usage_type).push(zeroed_entry(catalog@[i as int])));
                lemma_allocated_entries_shape(before, usage_type);
                assert forall|a: int, b: int| 0 <= a < b < set@.entries.len()
                    implies set@.entries[a].name != set@.entries[b].name by {
                    if b == set@.entries.len() - 1 {
                        let prev = allocated_entries(before, usage_type);
                        assert(from_matching_entry(before, usage_type, prev[a]));
                        let w = choose|w: int|
                            0 <= w < before.len() && (#[trigger] before[w]).usage == usage_type && prev[a] == zeroed_entry(before[w]);
                        assert(before[w] == catalog@[w]);
                        assert(set@.entries[a].name == catalog@[w].name);
                        assert(set@.entries[b].name == catalog@[i as int].name);
                    }
                }
            } else {
                assert(allocated_entries(after, usage_type) == allocated_entries(before, usage_type));
            }
        }
        i = i + 1;
    }
    proof {
        assert(catalog@.take(n as int) =~= catalog@);
    }
    Ok(set)
}

/// The entry after writing `bytes` at offset zero: the leading bytes
/// replaced, the rest of the buffer kept.
pub open spec fn written_entry(e: EntryV, bytes: Seq<u8>) -> EntryV {
    EntryV { name: e.name, data: bytes + e.data.skip(bytes.len() as int) }
}

/// What one load pass does from pair `i` on, having already written
/// `loaded` tensors: the result of the call and the entries it leaves
/// behind.  Each host buffer is paired positionally with a catalog entry;
/// a length mismatch stops the pass with the invalid-argument error
/// before writing that entry; entries of another direction are skipped;
/// a name that does not resolve, and a final write count different from
/// the number of buffers, stop it with the failure error.
pub open spec fn load_from(
    entries: Seq<EntryV>,
    catalog: Seq<TensorInfoV>,
    usage_type: u32,
    values: Seq<Seq<u32>>,
    i: int,
    loaded: int,
) -> (Result<(), NrtStatus>, Seq<EntryV>)
    decreases values.len() - i,
{
    if i < 0 || i >= values.len() {
        (
            if loaded == values.len() {
                Result::<(), NrtStatus>::Ok(())
            } else {
                Result::<(), NrtStatus>::Err(NrtStatus::Failure)
            },
            entries,
        )
    } else {
        let info = catalog[i];
        let data = values[i];
        if 4 * data.len() != info.size {
            (Result::<(), NrtStatus>::Err(NrtStatus::Invalid), entries)
        } else if info.usage != usage_type {
            load_from(entries, catalog, usage_type, values, i + 1, loaded)
        } else if !contains_name(entries, info.name) {
            (Result::<(), NrtStatus>::Err(NrtStatus::Failure), entries)
        } else {
            let j = index_of_name(entries, info.name);
            let bytes = crate::codec::bytes_of_words(data);
            if bytes.len() > entries[j].data.len() {
                (Result::<(), NrtStatus>::Err(NrtStatus::Invalid), entries)
            } else {
                load_from(
                    entries.update(j, written_entry(entries[j], bytes)),
                    catalog,
                    usage_type,
                    values,
                    i + 1,
                    loaded + 1,
                )
            }
        }
    }
}

/// The whole load call: a no-op success on an empty value list, the
/// invalid-argument error on a direction outside the valid pair or an
/// empty catalog, and otherwise one pass of [`load_from`].
pub open spec fn load_spec(
    set: TensorSetV,
    catalog: Seq<TensorInfoV>,
    usage_type: u32,
    values: Seq<Seq<u32>>,
) -> (Result<(), NrtStatus>, Seq<EntryV>) {
    if values.len() == 0 {
        (Result::<(), NrtStatus>::Ok(()), set.entries)
    } else if !usage_valid(usage_type) {
        (Result::<(), NrtStatus>::Err(NrtStatus::Invalid), set.entries)
    } else if catalog.len() == 0 {
        (Result::<(), NrtStatus>::Err(NrtStatus::Invalid), set.entries)
    } else {
        load_from(set.entries, catalog, usage_type, values, 0, 0)
    }
}

/// Copies host values into the tensors of a set, pairing each buffer
/// positionally with a catalog entry and writing only entries of the
/// requested direction; see [`load_spec`] for the exact outcome.  The
/// write count check at the end catches a caller/catalog misalignment:
/// success is returned only when every buffer was written to a tensor.
pub fn load_tensor_values(
    tensors: &mut TensorSet,
    catalog: &TensorInfoCatalog,
    usage_type: u32,
    values: &Vec<Vec<u32>>,
) -> (r: Result<(), NrtStatus>)
    requires
        set_wf(old(tensors)@),
        values@.len() <= catalog@.len(),
    ensures
        r == load_spec(old(tensors)@, catalog@, usage_type, values.deep_view()).0,
        final(tensors)@.entries == load_spec(old(tensors)@, catalog@, usage_type, values.deep_view()).1,
        final(tensors)@.usage == old(tensors)@.usage,
        final(tensors)@.entries.len() == old(tensors)@.entries.len(),
        forall|k: int| 0 <= k < old(tensors)@.entries.len() ==> (#[trigger] final(tensors)@.entries[k]).name
            == old(tensors)@.entries[k].name && final(tensors)@.entries[k].data.len()
            == old(tensors)@.entries[k].data.len(),
        set_wf(final(tensors)@),
{
    let ghost vals = values.deep_view();
    let ghost orig = tensors@;
    if values.len() == 0 {
        return Ok(());
    }
    if !crate::nrt::check_usage_valid(usage_type) {
        return Err(NrtStatus::Invalid);
    }
    if catalog.len() == 0 {
        return Err(NrtStatus::Invalid);
    }
    let mut loaded: usize = 0;
    let mut i: usize = 0;
    while i < values.len()
        invariant
            i <= values@.len(),
            loaded <= i,
            values@.len() <= catalog@.len(),
            vals == values.deep_view(),
            vals.len() == values@.len(),
            vals.len() > 0,
            usage_valid(usage_type),
            catalog@.len() > 0,
            orig == old(tensors)@,
            tensors@.usage == orig.usage,
            tensors@.entries.len() == orig.entries.len(),
            forall|k: int| 0 <= k < orig.entries.len() ==> (#[trigger] tensors@.entries[k]).name
                == orig.entries[k].name && tensors@.entries[k].data.len()
                == orig.entries[k].data.len(),
            set_wf(tensors@),
            load_from(orig.entries, catalog@, usage_type, vals, 0, 0) == load_from(
                tensors@.entries,
                catalog@,
                usage_type,
                vals,
                i as int,
                loaded as int,
            ),
        decreases values@.len() - i,
    {
        let ghost cur = tensors@.entries;
        let info = &catalog.entries[i];
        let data = &values[i];
        proof {
            assert(info@ == catalog@[i as int]);
            assert(vals[i as int] =~= values@[i as int]@);
        }
        if !(data.len() == info.size / 4 && info.size % 4 == 0) {
            proof {
                assert(4 * vals[i as int].len() != catalog@[i as int].size);
                assert(load_from(cur, catalog@, usage_type, vals, i as int, loaded as int) == (
                    Result::<(), NrtStatus>::Err(NrtStatus::Invalid),
                    cur,
                ));
            }
            return Err(NrtStatus::Invalid);
        }
        proof {
            assert(4 * vals[i as int].len() == catalog@[i as int].size);
        }
        if info.usage == usage_type {
            match tensors.get_tensor_index(&info.name) {
                None => {
                    proof {
                        assert(load_from(cur, catalog@, usage_type, vals, i as int, loaded as int)
                            == (Result::<(), NrtStatus>::Err(NrtStatus::Failure), cur));
                    }
                    return Err(NrtStatus::Failure);
                },
                Some(j) => {
                    proof {
                        lemma_index_of_name_unique(cur, j as int);
                        assert(index_of_name(cur, catalog@[i as int].name) == j as int);
                    }
                    let bytes = crate::codec::encode_words(data);
                    proof {
                        assert(bytes@ == crate::codec::bytes_of_words(vals[i as int]));
                    }
                    match tensors.tensor_write(j, &bytes) {
                        Ok(()) => {
                            proof {
                                assert(tensors@.entries == cur.update(j as int, written_entry(cur[j as int], bytes@)));
                                assert(load_from(cur, catalog@, usage_type, vals, i as int, loaded as int)
                                    == load_from(tensors@.entries, catalog@, usage_type, vals, i + 1, loaded + 1));
                            }
                        },
                        Err(e) => {
                            proof {
                                assert(bytes@.len() > cur[j as int].data.len());
                                assert(load_from(cur, catalog@, usage_type, vals, i as int, loaded as int)
                                    == (Result::<(), NrtStatus>::Err(NrtStatus::Invalid), cur));
                            }
                            return Err(e);
                        },
                    }
                    loaded = loaded + 1;
                },
            }
        } else {
            proof {
                assert(load_from(cur, catalog@, usage_type, vals, i as int, loaded as int)
                    == load_from(cur, catalog@, usage_type, vals, i + 1, loaded as int));
            }
        }
        i = i + 1;
    }
    proof {
        assert(load_from(tensors@.entries, catalog@, usage_type, vals, vals.len() as int, loaded as int).1 == tensors@.entries);
    }
    if loaded != values.len() {
        return Err(NrtStatus::Failure);
    }
    Ok(())
}

/// A per-tensor handler a dispatch drives over a catalog, an injected
/// capability with a mathematical account of itself: its observable
/// state is its view, and four spec functions say, for a handler state
/// meeting a tensor, whether dispatch goes on, which status the handler
/// reports, what it leaves in the output accumulator, and its next
/// state.  [`iterate_tensors`] is specified entirely over these.
pub trait TensorHandler: Sized + View {
    /// Whether dispatch continues after this call.
    spec fn continues(s: Self::V, t: EntryV, info: TensorInfoV, out0: OutputV) -> bool;

    /// The status the handler records for this tensor.
    spec fn status_after(s: Self::V, t: EntryV, info: TensorInfoV, out0: OutputV) -> NrtStatus;

    /// The accumulator contents the handler leaves behind.
    spec fn output_after(s: Self::V, t: EntryV, info: TensorInfoV, out0: OutputV) -> OutputV;

    /// The handler's state after this call.
    spec fn next_state(s: Self::V, t: EntryV, info: TensorInfoV, out0: OutputV) -> Self::V;

    /// Handles one dispatched tensor: reads the device tensor, fills the
    /// accumulator and the status slot, and says whether dispatch goes on.
    fn handle(
        &mut self,
        tensor: &DeviceTensor,
        info: &TensorInfo,
        result: &mut NrtStatus,
        return_value: &mut Output,
    ) -> (cont: bool)
        ensures
            cont == Self::continues(old(self)@, tensor@, info@, old(return_value)@),
            final(self)@ == Self::next_state(old(self)@, tensor@, info@, old(return_value)@),
            *final(result) == Self::status_after(old(self)@, tensor@, info@, old(return_value)@),
            final(return_value)@ == Self::output_after(
                old(self)@,
                tensor@,
                info@,
                old(return_value)@,
            ),
    ;
}

/// The views of a sequence of decoded outputs.
pub open spec fn outputs_view(s: Seq<Output>) -> Seq<OutputV> {
    s.map_values(|o: Output| o@)
}

/// What one dispatch pass does from catalog position `i` on, carrying
/// the handler state `s`, the folded status and the gathered outputs:
/// entries of another direction, and names that do not resolve, are
/// skipped; a handler that stops the pass surfaces its own status as the
/// error; otherwise a nonempty accumulator is gathered and the first
/// non-success handler status sticks as the folded status.
pub open spec fn iterate_from<H: TensorHandler>(
    entries: Seq<EntryV>,
    catalog: Seq<TensorInfoV>,
    usage_type: u32,
    s: H::V,
    i: int,
    acc_status: NrtStatus,
    acc: Seq<OutputV>,
) -> (Result<(NrtStatus, Seq<OutputV>), NrtStatus>, H::V)
    decreases catalog.len() - i,
{
    if i < 0 || i >= catalog.len() {
        (Result::<(NrtStatus, Seq<OutputV>), NrtStatus>::Ok((acc_status, acc)), s)
    } else {
        let info = catalog[i];
        if info.usage != usage_type || !contains_name(entries, info.name) {
            iterate_from::<H>(entries, catalog, usage_type, s, i + 1, acc_status, acc)
        } else {
            let t = entries[index_of_name(entries, info.name)];
            let out0 = empty_output_for(info.dtype);
            if !H::continues(s, t, info, out0) {
                (
                    Result::<(NrtStatus, Seq<OutputV>), NrtStatus>::Err(
                        H::status_after(s, t, info, out0),
                    ),
                    H::next_state(s, t, info, out0),
                )
            } else {
                let st = H::status_after(s, t, info, out0);
                let out = H::output_after(s, t, info, out0);
                let acc2 = if output_len(out) > 0 {
                    acc.push(out)
                } else {
                    acc
                };
                let st2 = if acc_status == NrtStatus::Success && st != NrtStatus::Success {
                    st
                } else {
                    acc_status
                };
                iterate_from::<H>(
                    entries,
                    catalog,
                    usage_type,
                    H::next_state(s, t, info, out0),
                    i + 1,
                    st2,
                    acc2,
                )
            }
        }
    }
}

/// Walks the catalog in order and drives the handler over every tensor
/// of the requested direction whose name resolves in the set; see
/// [`iterate_from`] for the exact outcome.  A data type this engine
/// cannot decode, on a dispatched tensor, is a configuration error a
/// well-formed model never produces, and is excluded by contract.
pub fn iterate_tensors<H: TensorHandler>(
    tset: &TensorSet,
    info_array: &TensorInfoCatalog,
    usage_type: u32,
    handler: &mut H,
) -> (r: Result<(NrtStatus, Vec<Output>), NrtStatus>)
    requires
        set_wf(tset@),
        forall|i: int|
            0 <= i < info_array@.len() && (#[trigger] info_array@[i]).usage == usage_type
                && contains_name(tset@.entries, info_array@[i].name) ==> dtype_supported(
                info_array@[i].dtype,
            ),
    ensures
        ({
            let (rs, sf) = iterate_from::<H>(
                tset@.entries,
                info_array@,
                usage_type,
                old(handler)@,
                0,
                NrtStatus::Success,
                Seq::<OutputV>::empty(),
            );
            &&& final(handler)@ == sf
            &&& match (r, rs) {
                (Ok(p), Ok(q)) => p.0 == q.0 && outputs_view(p.1@) == q.1,
                (Err(e1), Err(e2)) => e1 == e2,
                _ => false,
            }
        }),
{
    let ghost s0 = handler@;
    let mut final_result = NrtStatus::Success;
    let mut return_values: Vec<Output> = Vec::new();
    let n: usize = info_array.len();
    let mut idx: usize = 0;
    proof {
        assert(outputs_view(return_values@) =~= Seq::<OutputV>::empty());
    }
    while idx < n
        invariant
            idx <= n,
            n == info_array@.len(),
            s0 == old(handler)@,
            set_wf(tset@),
            forall|i: int|
                0 <= i < info_array@.len() && (#[trigger] info_array@[i]).usage == usage_type
                    && contains_name(tset@.entries, info_array@[i].name) ==> dtype_supported(
                    info_array@[i].dtype,
                ),
            iterate_from::<H>(
                tset@.entries,
                info_array@,
                usage_type,
                s0,
                0,
                NrtStatus::Success,
                Seq::<OutputV>::empty(),
            ) == iterate_from::<H>(
                tset@.entries,
                info_array@,
                usage_type,
                handler@,
                idx as int,
                final_result,
                outputs_view(return_values@),
            ),
        decreases n - idx,
    {
        let ghost s_cur = handler@;
        let ghost acc_cur = outputs_view(return_values@);
        let ghost st_cur = final_result;
        let info = &info_array.entries[idx];
        proof {
            assert(info@ == info_array@[idx as int]);
        }
        if info.usage == usage_type {
            match tset.get_tensor_index(&info.name) {
                None => {
                    proof {
                        assert(!contains_name(tset@.entries, info@.name));
                        assert(iterate_from::<H>(tset@.entries, info_array@, usage_type, s_cur, idx as int, st_cur, acc_cur)
                            == iterate_from::<H>(tset@.entries, info_array@, usage_type, s_cur, idx + 1, st_cur, acc_cur));
                    }
                },
                Some(j) => {
                    proof {
                        assert(contains_name(tset@.entries, info@.name));
                        lemma_index_of_name_unique(tset@.entries, j as int);
                        assert(index_of_name(tset@.entries, info@.name) == j as int);
                    }
                    let ghost t = tset@.entries[j as int];
                    let ghost out0 = empty_output_for(info@.dtype);
                    proof {
                        assert(tset.tensors@[j as int]@ == tset@.entries[j as int]);
                    }
                    let mut handler_result = NrtStatus::Success;
                    let mut return_value = crate::xla_runner::make_empty_output(info.dtype);
                    let cont = handler.handle(
                        &tset.tensors[j],
                        info,
                        &mut handler_result,
                        &mut return_value,
                    );
                    if !cont {
                        proof {
                            assert(iterate_from::<H>(tset@.entries, info_array@, usage_type, s_cur, idx as int, st_cur, acc_cur)
                                == (Result::<(NrtStatus, Seq<OutputV>), NrtStatus>::Err(H::status_after(s_cur, t, info@, out0)), H::next_state(s_cur, t, info@, out0)));
                        }
                        return Err(handler_result);
                    }
                    if !return_value.is_empty() {
                        return_values.push(return_value);
                        proof {
                            assert(outputs_view(return_values@) =~= acc_cur.push(
                                H::output_after(s_cur, t, info@, out0),
                            ));
                        }
                    }
                    if final_result == NrtStatus::Success && handler_result != final_result {
                        final_result = handler_result;
                    }
                    proof {
                        let st2 = if st_cur == NrtStatus::Success && H::status_after(s_cur, t, info@, out0) != NrtStatus::Success {
                            H::status_after(s_cur, t, info@, out0)
                        } else {
                            st_cur
                        };
                        let acc2 = if output_len(H::output_after(s_cur, t, info@, out0)) > 0 {
                            acc_cur.push(H::output_after(s_cur, t, info@, out0))
                        } else {
                            acc_cur
                        };
                        assert(final_result == st2);
                        assert(outputs_view(return_values@) == acc2);
                        assert(handler@ == H::next_state(s_cur, t, info@, out0));
                        assert(iterate_from::<H>(tset@.entries, info_array@, usage_type, s_cur, idx as int, st_cur, acc_cur)
                            == iterate_from::<H>(tset@.entries, info_array@, usage_type, handler@, idx + 1, st2, acc2));
                    }
                },
            }
        } else {
            proof {
                assert(iterate_from::<H>(tset@.entries, info_array@, usage_type, s_cur, idx as int, st_cur, acc_cur)
                    == iterate_from::<H>(tset@.entries, info_array@, usage_type, s_cur, idx + 1, st_cur, acc_cur));
            }
        }
        idx = idx + 1;
    }
    Ok((final_result, return_values))
}

/// If the handler stops the pass at the first tensor the dispatch
/// reaches, the dispatch surfaces that handler's status at once, as its
/// error: no later catalog entry is processed.
pub proof fn lemma_dispatch_aborts_on_handler_failure<H: TensorHandler>(
    entries: Seq<EntryV>,
    catalog: Seq<TensorInfoV>,
    usage_type: u32,
    s: H::V,
    i: int,
    acc_status: NrtStatus,
    acc: Seq<OutputV>,
    k: int,
)
    requires
        0 <= i <= k < catalog.len(),
        forall|m: int|
            i <= m < k ==> !((#[trigger] catalog[m]).usage == usage_type && contains_name(
                entries,
                catalog[m].name,
            )),
        catalog[k].usage == usage_type,
        contains_name(entries, catalog[k].name),
        !H::continues(
            s,
            entries[index_of_name(entries, catalog[k].name)],
            catalog[k],
            empty_output_for(catalog[k].dtype),
        ),
    ensures
        iterate_from::<H>(entries, catalog, usage_type, s, i, acc_status, acc).0 == Result::<
            (NrtStatus, Seq<OutputV>),
            NrtStatus,
        >::Err(
            H::status_after(
                s,
                entries[index_of_name(entries, catalog[k].name)],
                catalog[k],
                empty_output_for(catalog[k].dtype),
            ),
        ),
    decreases k - i,
{
    if i < k {
        lemma_dispatch_aborts_on_handler_failure::<H>(
            entries,
            catalog,
            usage_type,
            s,
            i + 1,
            acc_status,
            acc,
            k,
        );
    }
}

/// Mathematical view of one output file record.
#[verifier::ext_equal]
pub ghost struct FileV {
    pub name: Seq<u8>,
    pub bytes: Seq<u8>,
}

/// One output file the harvest wants persisted: the tensor's raw device
/// bytes verbatim, under the tensor's name with its extension replaced
/// by the fixed output suffix.  The harvest gathers these records; the
/// caller writes them to disk.
#[derive(Debug, Clone)]
pub struct OutputFile {
    pub name: Vec<u8>,
    pub bytes: Vec<u8>,
}

impl View for OutputFile {
    type V = FileV;

    open spec fn view(&self) -> FileV {
        FileV { name: self.name@, bytes: self.bytes@ }
    }
}

/// The views of a sequence of file records.
pub open spec fn files_view(s: Seq<OutputFile>) -> Seq<FileV> {
    s.map_values(|f: OutputFile| f@)
}

/// The fixed suffix of an output file name.
pub open spec fn out_suffix() -> Seq<u8> {
    seq![46u8, 111u8, 117u8, 116u8]
}

/// Index of the last `.` in a name, `-1` when there is none.
pub open spec fn last_dot(name: Seq<u8>) -> int
    decreases name.len(),
{
    if name.len() == 0 {
        -1
    } else if name.last() == 46u8 {
        name.len() - 1
    } else {
        last_dot(name.drop_last())
    }
}

/// The file name for a tensor: its name with the extension replaced by
/// the fixed output suffix, or with the suffix appended when the name
/// has no extension.  A `.` at the very front marks no extension, as the
/// host's path handling has it.
pub open spec fn out_file_name(name: Seq<u8>) -> Seq<u8> {
    if last_dot(name) > 0 {
        name.take(last_dot(name)) + out_suffix()
    } else {
        name + out_suffix()
    }
}

/// Builds the output file name matching [`out_file_name`].
pub fn output_file_name(name: &Vec<u8>) -> (r: Vec<u8>)
    ensures
        r@ == out_file_name(name@),
{
    let n: usize = name.len();
    let mut dot: usize = 0;
    let mut found: bool = false;
    let mut i: usize = 0;
    proof {
        assert(last_dot(name@.take(0)) == -1);
    }
    while i < n
        invariant
            i <= n,
            n == name@.len(),
            found ==> dot < i && last_dot(name@.take(i as int)) == dot,
            !found ==> last_dot(name@.take(i as int)) == -1,
        decreases n - i,
    {
        proof {
            let before = name@.take(i as int);
            let after = name@.take(i + 1);
            assert(after.drop_last() =~= before);
            assert(after.last() == name@[i as int]);
        }
        if name[i] == 46u8 {
            dot = i;
            found = true;
        }
        i = i + 1;
    }
    proof {
        assert(name@.take(n as int) =~= name@);
    }
    let keep: usize = if found && dot > 0 {
        dot
    } else {
        n
    };
    let mut out: Vec<u8> = Vec::new();
    let mut k: usize = 0;
    while k < keep
        invariant
            k <= keep,
            keep <= name@.len(),
            out@ == name@.take(k as int),
        decreases keep - k,
    {
        out.push(name[k]);
        proof {
            assert(name@.take(k + 1) =~= name@.take(k as int).push(name@[k as int]));
        }
        k = k + 1;
    }
    out.push(46u8);
    out.push(111u8);
    out.push(117u8);
    out.push(116u8);
    proof {
        if found && dot > 0 {
            assert(out@ =~= name@.take(dot as int) + out_suffix());
        } else {
            assert(name@.take(name@.len() as int) =~= name@);
            assert(out@ =~= name@ + out_suffix());
        }
    }
    out
}

/// The leading `n` bytes of a buffer, as a fresh host buffer.
pub fn copy_prefix(v: &Vec<u8>, n: usize) -> (r: Vec<u8>)
    requires
        n <= v@.len(),
    ensures
        r@ == v@.take(n as int),
{
    let mut out: Vec<u8> = Vec::new();
    let mut k: usize = 0;
    while k < n
        invariant
            k <= n,
            n <= v@.len(),
            out@ == v@.take(k as int),
        decreases n - k,
    {
        out.push(v[k]);
        proof {
            assert(v@.take(k + 1) =~= v@.take(k as int).push(v@[k as int]));
        }
        k = k + 1;
    }
    out
}

/// The harvest's device read succeeds: the tensor holds at least the
/// declared byte count.
pub open spec fn harvest_read_ok(t: EntryV, info: TensorInfoV) -> bool {
    info.size <= t.data.len()
}

/// The status the harvest handler records: failure when the device read
/// fails or when the tensor's declared data type disagrees with the
/// accumulator's variant, success otherwise.
pub open spec fn harvest_status(t: EntryV, info: TensorInfoV, out0: OutputV) -> NrtStatus {
    if !harvest_read_ok(t, info) {
        NrtStatus::Failure
    } else if !crate::xla_runner::variant_matches_dtype(out0, info.dtype) {
        NrtStatus::Failure
    } else {
        NrtStatus::Success
    }
}

/// What the harvest handler leaves in the accumulator: the declared byte
/// range decoded by the tensor's data type, appended to the accumulator;
/// on a read failure or a data-type mismatch the accumulator is left as
/// it was.
pub open spec fn harvest_output(t: EntryV, info: TensorInfoV, out0: OutputV) -> OutputV {
    if !harvest_read_ok(t, info) || !crate::xla_runner::variant_matches_dtype(out0, info.dtype) {
        out0
    } else {
        crate::xla_runner::output_extended(out0, info.dtype, t.data.take(info.size as int))
    }
}

/// The file records after the harvest handler saw a tensor: once the
/// read succeeded the raw bytes are recorded — also on a later
/// data-type mismatch, since the file is persisted before decoding.
pub open spec fn harvest_files(fs: Seq<FileV>, t: EntryV, info: TensorInfoV) -> Seq<FileV> {
    if harvest_read_ok(t, info) {
        fs.push(FileV { name: out_file_name(t.name), bytes: t.data.take(info.size as int) })
    } else {
        fs
    }
}

/// Harvests one output tensor: reads its declared byte range from device
/// memory, records the raw bytes as a file to persist, and decodes them
/// into the accumulator by the tensor's data type.  Every failure — the
/// device read, the data-type mismatch — is recorded in the status slot,
/// and the handler still asks the dispatch to go on: one tensor's
/// failure does not prevent harvesting the rest.  The host scratch
/// buffer is owned, so it is released on every exit path.
pub fn handler_save_outputs(
    tensor: &DeviceTensor,
    info: &TensorInfo,
    result: &mut NrtStatus,
    return_value: &mut Output,
    files: &mut Vec<OutputFile>,
) -> (cont: bool)
    ensures
        cont == true,
        *final(result) == harvest_status(tensor@, info@, old(return_value)@),
        final(return_value)@ == harvest_output(tensor@, info@, old(return_value)@),
        files_view(final(files)@) == harvest_files(files_view(old(files)@), tensor@, info@),
    {
    if info.size > tensor.data.len() {
        *result = NrtStatus::Failure;
        proof {
            assert(files_view(files@) =~= harvest_files(files_view(old(files)@), tensor@, info@));
        }
        return true;
    }
    let data = copy_prefix(&tensor.data, info.size);
    let name = output_file_name(&tensor.name);
    match return_value {
        Output::Float32(v) => {
            if info.dtype == crate::nrt::NRT_DTYPE_FLOAT32 {
                let mut words = crate::codec::decode_words(&data);
                v.append(&mut words);
                *result = NrtStatus::Success;
            } else {
                *result = NrtStatus::Failure;
            }
        },
        Output::Bool(v) => {
            if info.dtype == crate::nrt::NRT_DTYPE_UINT8 {
                let mut bools = crate::codec::decode_bools(&data);
                v.append(&mut bools);
                *result = NrtStatus::Success;
            } else {
                *result = NrtStatus::Failure;
            }
        },
    }
    files.push(OutputFile { name, bytes: data });
    proof {
        assert(files_view(files@) =~= files_view(old(files)@).push(FileV {
            name: out_file_name(tensor@.name),
            bytes: tensor@.data.take(info@.size as int),
        }));
    }
    true
}

/// The harvest handler: gathers the file records its calls produce.
pub struct SaveOutputsHandler {
    pub files: Vec<OutputFile>,
}

impl SaveOutputsHandler {
    /// A harvest handler with nothing gathered yet.
    pub fn new() -> (r: SaveOutputsHandler)
        ensures
            r@ == Seq::<FileV>::empty(),
    {
        let r = SaveOutputsHandler { files: Vec::new() };
        proof {
            assert(r@ =~= Seq::<FileV>::empty());
        }
        r
    }
}

impl View for SaveOutputsHandler {
    type V = Seq<FileV>;

    open spec fn view(&self) -> Seq<FileV> {
        files_view(self.files@)
    }
}

impl TensorHandler for SaveOutputsHandler {
    open spec fn continues(s: Seq<FileV>, t: EntryV, info: TensorInfoV, out0: OutputV) -> bool {
        true
    }

    open spec fn status_after(
        s: Seq<FileV>,
        t: EntryV,
        info: TensorInfoV,
        out0: OutputV,
    ) -> NrtStatus {
        harvest_status(t, info, out0)
    }

    open spec fn output_after(
        s: Seq<FileV>,
        t: EntryV,
        info: TensorInfoV,
        out0: OutputV,
    ) -> OutputV {
        harvest_output(t, info, out0)
    }

    open spec fn next_state(
        s: Seq<FileV>,
        t: EntryV,
        info: TensorInfoV,
        out0: OutputV,
    ) -> Seq<FileV> {
        harvest_files(s, t, info)
    }

    fn handle(
        &mut self,
        tensor: &DeviceTensor,
        info: &TensorInfo,
        result: &mut NrtStatus,
        return_value: &mut Output,
    ) -> (cont: bool) {
        handler_save_outputs(tensor, info, result, return_value, &mut self.files)
    }
}

/// Mathematical view of the scripted handler.
#[verifier::ext_equal]
pub ghost struct ProbeV {
    pub go_on: bool,
    pub status: NrtStatus,
    pub seen: Seq<Seq<u8>>,
}

/// A scripted stub handler for exercising the dispatch: it reports a
/// fixed status, asks the dispatch to go on or to stop as configured,
/// leaves the accumulator alone, and records the name of every tensor it
/// was given.
pub struct ProbeHandler {
    pub go_on: bool,
    pub status: NrtStatus,
    pub seen: Vec<Vec<u8>>,
}

impl View for ProbeHandler {
    type V = ProbeV;

    open spec fn view(&self) -> ProbeV {
        ProbeV { go_on: self.go_on, status: self.status, seen: self.seen.deep_view() }
    }
}

impl TensorHandler for ProbeHandler {
    open spec fn continues(s: ProbeV, t: EntryV, info: TensorInfoV, out0: OutputV) -> bool {
        s.go_on
    }

    open spec fn status_after(s: ProbeV, t: EntryV, info: TensorInfoV, out0: OutputV) -> NrtStatus {
        s.status
    }

    open spec fn output_after(s: ProbeV, t: EntryV, info: TensorInfoV, out0: OutputV) -> OutputV {
        out0
    }

    open spec fn next_state(s: ProbeV, t: EntryV, info: TensorInfoV, out0: OutputV) -> ProbeV {
        ProbeV { go_on: s.go_on, status: s.status, seen: s.seen.push(t.name) }
    }

    fn handle(
        &mut self,
        tensor: &DeviceTensor,
        info: &TensorInfo,
        result: &mut NrtStatus,
        return_value: &mut Output,
    ) -> (cont: bool) {
        let name = copy_bytes(&tensor.name);
        self.seen.push(name);
        proof {
            assert(self.seen.deep_view() =~~= old(self).seen.deep_view().push(tensor@.name));
        }
        *result = self.status;
        self.go_on
    }
}

/// With a well-formed catalog the allocated entries carry pairwise
/// distinct names.
pub proof fn lemma_allocated_names_distinct(catalog: Seq<TensorInfoV>, usage_type: u32)
    requires
        catalog_wf(catalog),
    ensures
        names_distinct(allocated_entries(catalog, usage_type)),
    decreases catalog.len(),
{
    if catalog.len() > 0 {
        let prefix = catalog.drop_last();
        assert(catalog_wf(prefix)) by {
            assert(forall|i: int| 0 <= i < prefix.len() ==> prefix[i] == catalog[i]);
        }
        lemma_allocated_names_distinct(prefix, usage_type);
        if catalog.last().usage == usage_type {
            let part = allocated_entries(prefix, usage_type);
            let whole = allocated_entries(catalog, usage_type);
            lemma_allocated_entries_shape(prefix, usage_type);
            assert forall|a: int, b: int| 0 <= a < b < whole.len() implies whole[a].name
                != whole[b].name by {
                if b == whole.len() - 1 {
                    assert(from_matching_entry(prefix, usage_type, part[a]));
                    let w = choose|w: int|
                        0 <= w < prefix.len() && (#[trigger] prefix[w]).usage == usage_type
                            && part[a] == zeroed_entry(prefix[w]);
                    assert(whole[a].name == catalog[w].name);
                    assert(whole[b].name == catalog[catalog.len() - 1].name);
                }
            }
        }
    }
}

/// In the set allocated for a direction, the name of each catalog entry
/// of that direction resolves to its own zero-filled tensor.
pub proof fn lemma_allocated_lookup(catalog: Seq<TensorInfoV>, usage_type: u32, i: int)
    requires
        catalog_wf(catalog),
        0 <= i < catalog.len(),
        catalog[i].usage == usage_type,
    ensures
        contains_name(allocated_entries(catalog, usage_type), catalog[i].name),
        allocated_entries(catalog, usage_type)[index_of_name(
            allocated_entries(catalog, usage_type),
            catalog[i].name,
        )] == zeroed_entry(catalog[i]),
{
    let whole = allocated_entries(catalog, usage_type);
    lemma_allocated_names_distinct(catalog, usage_type);
    lemma_allocated_entries_shape(catalog, usage_type);
    assert(holds_zeroed_image(whole, catalog[i]));
    let k = choose|k: int| 0 <= k < whole.len() && #[trigger] whole[k] == zeroed_entry(catalog[i]);
    lemma_index_of_name_unique(whole, k);
}

/// A successful load pass writes, for every remaining buffer paired with
/// an entry of the requested direction, exactly that buffer's packed
/// bytes into the tensor resolved by the entry's name — and touches no
/// tensor whose name is paired with no such buffer.
pub proof fn lemma_load_from_writes(
    entries: Seq<EntryV>,
    catalog: Seq<TensorInfoV>,
    usage_type: u32,
    values: Seq<Seq<u32>>,
    i: int,
    loaded: int,
)
    requires
        names_distinct(entries),
        0 <= i <= values.len(),
        values.len() <= catalog.len(),
        forall|m: int, n: int| i <= m < n < values.len() ==> catalog[m].name != catalog[n].name,
    ensures
        ({
            let (r, fin) = load_from(entries, catalog, usage_type, values, i, loaded);
            &&& fin.len() == entries.len()
            &&& forall|j: int| 0 <= j < entries.len() ==> (#[trigger] fin[j]).name == entries[j].name
                && fin[j].data.len() == entries[j].data.len()
            &&& (r == Result::<(), NrtStatus>::Ok(()) ==> forall|m: int|
                i <= m < values.len() && (#[trigger] catalog[m]).usage == usage_type
                    ==> contains_name(entries, catalog[m].name) && fin[index_of_name(
                    entries,
                    catalog[m].name,
                )].data == crate::codec::bytes_of_words(values[m]) + entries[index_of_name(
                    entries,
                    catalog[m].name,
                )].data.skip(4 * values[m].len() as int))
            &&& forall|j: int|
                0 <= j < entries.len() && (forall|m: int|
                    i <= m < values.len() ==> (#[trigger] catalog[m]).name != entries[j].name)
                    ==> #[trigger] fin[j] == entries[j]
        }),
    decreases values.len() - i,
{
    let (r, fin) = load_from(entries, catalog, usage_type, values, i, loaded);
    if i >= values.len() {
        // base case: nothing remains
    } else {
        let info = catalog[i];
        let data = values[i];
        if 4 * data.len() != info.size {
            // the pass stops; every tensor keeps its contents
        } else if info.usage != usage_type {
            lemma_load_from_writes(entries, catalog, usage_type, values, i + 1, loaded);
        } else if !contains_name(entries, info.name) {
            // the pass stops; every tensor keeps its contents
        } else {
            let j = index_of_name(entries, info.name);
            let bytes = crate::codec::bytes_of_words(data);
            if bytes.len() > entries[j].data.len() {
                // the pass stops; every tensor keeps its contents
            } else {
                let next = entries.update(j, written_entry(entries[j], bytes));
                assert(names_distinct(next)) by {
                    assert(forall|x: int| 0 <= x < entries.len() ==> (#[trigger] next[x]).name
                        == entries[x].name);
                }
                lemma_load_from_writes(next, catalog, usage_type, values, i + 1, loaded + 1);
                assert forall|nm: Seq<u8>| contains_name(entries, nm) implies contains_name(
                    next,
                    nm,
                ) && index_of_name(next, nm) == index_of_name(entries, nm) by {
                    let x = index_of_name(entries, nm);
                    assert(0 <= x < entries.len() && entries[x].name == nm);
                    assert(next[x].name == nm);
                    lemma_index_of_name_unique(next, x);
                    lemma_index_of_name_unique(entries, x);
                }
                if r == Result::<(), NrtStatus>::Ok(()) {
                    assert forall|m: int|
                        i <= m < values.len() && (#[trigger] catalog[m]).usage == usage_type
                            implies contains_name(entries, catalog[m].name) && fin[index_of_name(
                            entries,
                            catalog[m].name,
                        )].data == crate::codec::bytes_of_words(values[m]) + entries[index_of_name(
                            entries,
                            catalog[m].name,
                        )].data.skip(4 * values[m].len() as int) by {
                        if m == i {
                            // entry j was written now and no later buffer touches
                            // its name, so it survives the rest of the pass
                            assert(forall|n: int| i + 1 <= n < values.len() ==> (
                            #[trigger] catalog[n]).name != next[j].name);
                            assert(fin[j] == next[j]);
                            assert(bytes.len() == 4 * data.len());
                            assert(next[j].data == bytes + entries[j].data.skip(4 * data.len() as int));
                        } else {
                            let x = index_of_name(entries, catalog[m].name);
                            assert(contains_name(next, catalog[m].name));
                            assert(index_of_name(next, catalog[m].name) == x);
                            assert(x != j) by {
                                if x == j {
                                    assert(catalog[m].name == entries[j].name);
                                    assert(catalog[i].name != catalog[m].name);
                                }
                            }
                            assert(next[x] == entries[x]);
                        }
                    }
                }
                assert forall|jj: int|
                    0 <= jj < entries.len() && (forall|m: int|
                        i <= m < values.len() ==> (#[trigger] catalog[m]).name != entries[jj].name)
                        implies #[trigger] fin[jj] == entries[jj] by {
                    assert(catalog[i].name != entries[jj].name);
                    assert(jj != j);
                    assert(next[jj] == entries[jj]);
                    assert(forall|m: int| i + 1 <= m < values.len() ==> (#[trigger] catalog[m]).name
                        != next[jj].name);
                }
            }
        }
    }
}

/// Round trip, stated of the load pass: loading a host buffer of
/// `size / 4` words into a freshly allocated tensor of its direction and
/// unpacking the tensor's bytes in full yields the identical word
/// sequence, bit for bit.
pub proof fn lemma_load_round_trip(
    catalog: Seq<TensorInfoV>,
    usage_type: u32,
    values: Seq<Seq<u32>>,
    m: int,
)
    requires
        catalog_wf(catalog),
        usage_valid(usage_type),
        0 < values.len() <= catalog.len(),
        0 <= m < values.len(),
        catalog[m].usage == usage_type,
        load_spec(
            TensorSetV { usage: usage_type, entries: allocated_entries(catalog, usage_type) },
            catalog,
            usage_type,
            values,
        ).0 == Result::<(), NrtStatus>::Ok(()),
    ensures
        ({
            let entries = allocated_entries(catalog, usage_type);
            let fin = load_spec(
                TensorSetV { usage: usage_type, entries },
                catalog,
                usage_type,
                values,
            ).1;
            crate::codec::words_of_bytes(fin[index_of_name(entries, catalog[m].name)].data)
                == values[m]
        }),
{
    let entries = allocated_entries(catalog, usage_type);
    lemma_allocated_names_distinct(catalog, usage_type);
    lemma_allocated_lookup(catalog, usage_type, m);
    lemma_load_from_writes(entries, catalog, usage_type, values, 0, 0);
    let (r, fin) = load_from(entries, catalog, usage_type, values, 0, 0);
    let x = index_of_name(entries, catalog[m].name);
    assert(entries[x] == zeroed_entry(catalog[m]));
    assert(fin[x].data == crate::codec::bytes_of_words(values[m]) + entries[x].data.skip(4 * values[m].len() as int));
    // the load succeeded, so the buffer's length matches the entry's size
    // exactly and the written bytes fill the whole tensor
    lemma_load_from_ok_lengths(entries, catalog, usage_type, values, 0, 0);
    assert(4 * values[m].len() == catalog[m].size);
    assert(entries[x].data.skip(4 * values[m].len() as int) =~= Seq::<u8>::empty());
    assert(fin[x].data =~= crate::codec::bytes_of_words(values[m]));
    crate::codec::lemma_words_round_trip(values[m]);
}

/// A load pass only succeeds when every remaining buffer's length
/// matches its catalog entry's size.
pub proof fn lemma_load_from_ok_lengths(
    entries: Seq<EntryV>,
    catalog: Seq<TensorInfoV>,
    usage_type: u32,
    values: Seq<Seq<u32>>,
    i: int,
    loaded: int,
)
    requires
        0 <= i <= values.len(),
        values.len() <= catalog.len(),
    ensures
        load_from(entries, catalog, usage_type, values, i, loaded).0 == Result::<
            (),
            NrtStatus,
        >::Ok(()) ==> forall|m: int| i <= m < values.len() ==> 4 * (#[trigger] values[m]).len()
            == catalog[m].size,
    decreases values.len() - i,
{
    if i < values.len() {
        let info = catalog[i];
        let data = values[i];
        if 4 * data.len() != info.size {
            // the pass fails at once
        } else if info.usage != usage_type {
            lemma_load_from_ok_lengths(entries, catalog, usage_type, values, i + 1, loaded);
        } else if !contains_name(entries, info.name) {
            // the pass fails at once
        } else {
            let j = index_of_name(entries, info.name);
            let bytes = crate::codec::bytes_of_words(data);
            if bytes.len() <= entries[j].data.len() {
                let next = entries.update(j, written_entry(entries[j], bytes));
                lemma_load_from_ok_lengths(next, catalog, usage_type, values, i + 1, loaded + 1);
            }
        }
    }
}

/// A load pass that meets a buffer whose length disagrees with its
/// entry's size stops with the invalid-argument error and leaves, from
/// that buffer on, every tensor untouched; in particular it performs no
/// write for the mismatched entry.
pub proof fn lemma_load_from_stops_at_mismatch(
    entries: Seq<EntryV>,
    catalog: Seq<TensorInfoV>,
    usage_type: u32,
    values: Seq<Seq<u32>>,
    i: int,
    loaded: int,
    k: int,
)
    requires
        names_distinct(entries),
        0 <= i <= k < values.len(),
        values.len() <= catalog.len(),
        4 * values[k].len() != catalog[k].size,
        forall|m: int| i <= m < k ==> 4 * (#[trigger] values[m]).len() == catalog[m].size,
        forall|m: int, n: int| i <= m < n < values.len() ==> catalog[m].name != catalog[n].name,
    ensures
        ({
            let (r, fin) = load_from(entries, catalog, usage_type, values, i, loaded);
            &&& r == Result::<(), NrtStatus>::Err(NrtStatus::Invalid) || r == Result::<
                (),
                NrtStatus,
            >::Err(NrtStatus::Failure)
            &&& fin.len() == entries.len()
            &&& forall|j: int|
                0 <= j < entries.len() && (forall|m: int|
                    i <= m < k ==> (#[trigger] catalog[m]).name != entries[j].name)
                    ==> #[trigger] fin[j] == entries[j]
        }),
    decreases k - i,
{
    let (r, fin) = load_from(entries, catalog, usage_type, values, i, loaded);
    if i == k {
        // the mismatch is met at once: no tensor is written
    } else {
        let info = catalog[i];
        let data = values[i];
        if info.usage != usage_type {
            lemma_load_from_stops_at_mismatch(entries, catalog, usage_type, values, i + 1, loaded, k);
        } else if !contains_name(entries, info.name) {
            // the pass stops even earlier, with the resolution failure
        } else {
            let j = index_of_name(entries, info.name);
            let bytes = crate::codec::bytes_of_words(data);
            if bytes.len() > entries[j].data.len() {
                // the pass stops even earlier, with the bounds failure
            } else {
                let next = entries.update(j, written_entry(entries[j], bytes));
                assert(names_distinct(next)) by {
                    assert(forall|x: int| 0 <= x < entries.len() ==> (#[trigger] next[x]).name
                        == entries[x].name);
                }
                lemma_load_from_stops_at_mismatch(next, catalog, usage_type, values, i + 1, loaded + 1, k);
                assert forall|jj: int|
                    0 <= jj < entries.len() && (forall|m: int|
                        i <= m < k ==> (#[trigger] catalog[m]).name != entries[jj].name)
                        implies #[trigger] fin[jj] == entries[jj] by {
                    assert(catalog[i].name != entries[jj].name);
                    assert(jj != j);
                    assert(next[jj] == entries[jj]);
                    assert(forall|m: int| i + 1 <= m < k ==> (#[trigger] catalog[m]).name
                        != next[jj].name);
                }
            }
        }
    }
}

/// A host buffer whose length disagrees with its catalog entry's size
/// makes the whole load fail with the invalid-argument error, and the
/// mismatched entry's freshly allocated tensor keeps its zero-filled
/// contents: no write happens for that entry.
pub proof fn lemma_load_rejects_length_mismatch(
    catalog: Seq<TensorInfoV>,
    usage_type: u32,
    values: Seq<Seq<u32>>,
    k: int,
)
    requires
        catalog_wf(catalog),
        usage_valid(usage_type),
        0 < values.len() <= catalog.len(),
        0 <= k < values.len(),
        4 * values[k].len() != catalog[k].size,
        forall|m: int| 0 <= m < k ==> 4 * (#[trigger] values[m]).len() == catalog[m].size,
        catalog[k].usage == usage_type,
    ensures
        ({
            let entries = allocated_entries(catalog, usage_type);
            let (r, fin) = load_spec(
                TensorSetV { usage: usage_type, entries },
                catalog,
                usage_type,
                values,
            );
            &&& r == Result::<(), NrtStatus>::Err(NrtStatus::Invalid)
            &&& fin[index_of_name(entries, catalog[k].name)] == zeroed_entry(catalog[k])
        }),
{
    let entries = allocated_entries(catalog, usage_type);
    lemma_allocated_names_distinct(catalog, usage_type);
    lemma_allocated_lookup(catalog, usage_type, k);
    lemma_load_from_stops_at_mismatch(entries, catalog, usage_type, values, 0, 0, k);
    let x = index_of_name(entries, catalog[k].name);
    assert(forall|m: int| 0 <= m < k ==> (#[trigger] catalog[m]).name != entries[x].name);
    let (r, fin) = load_from(entries, catalog, usage_type, values, 0, 0);
    assert(fin[x] == entries[x]);
    // the pass reports the length mismatch, not a resolution failure:
    // every buffer before the mismatch fits its freshly allocated tensor
    assert forall|m: int| 0 <= m < k && (#[trigger] catalog[m]).usage == usage_type implies
        contains_name(entries, catalog[m].name) && 4 * values[m].len() <= entries[index_of_name(
        entries,
        catalog[m].name,
    )].data.len() by {
        lemma_allocated_lookup(catalog, usage_type, m);
    }
    lemma_load_from_reports_invalid(entries, catalog, usage_type, values, 0, 0, k);
}

/// Strengthening of [`lemma_load_from_stops_at_mismatch`]: when every
/// buffer before the mismatch resolves and fits, the reported error is
/// the invalid-argument one.
pub proof fn lemma_load_from_reports_invalid(
    entries: Seq<EntryV>,
    catalog: Seq<TensorInfoV>,
    usage_type: u32,
    values: Seq<Seq<u32>>,
    i: int,
    loaded: int,
    k: int,
)
    requires
        names_distinct(entries),
        0 <= i <= k < values.len(),
        values.len() <= catalog.len(),
        4 * values[k].len() != catalog[k].size,
        forall|m: int| i <= m < k ==> 4 * (#[trigger] values[m]).len() == catalog[m].size,
        forall|m: int, n: int| i <= m < n < values.len() ==> catalog[m].name != catalog[n].name,
        forall|m: int| i <= m < k && (#[trigger] catalog[m]).usage == usage_type ==> contains_name(
            entries,
            catalog[m].name,
        ) && 4 * values[m].len() <= entries[index_of_name(entries, catalog[m].name)].data.len(),
    ensures
        load_from(entries, catalog, usage_type, values, i, loaded).0 == Result::<
            (),
            NrtStatus,
        >::Err(NrtStatus::Invalid),
    decreases k - i,
{
    if i == k {
        // the mismatch is met at once
    } else {
        let info = catalog[i];
        let data = values[i];
        if info.usage != usage_type {
            lemma_load_from_reports_invalid(entries, catalog, usage_type, values, i + 1, loaded, k);
        } else {
            let j = index_of_name(entries, info.name);
            let bytes = crate::codec::bytes_of_words(data);
            assert(bytes.len() == 4 * data.len());
            let next = entries.update(j, written_entry(entries[j], bytes));
            assert(names_distinct(next)) by {
                assert(forall|x: int| 0 <= x < entries.len() ==> (#[trigger] next[x]).name
                    == entries[x].name);
            }
            assert forall|m: int| i + 1 <= m < k && (#[trigger] catalog[m]).usage == usage_type
                implies contains_name(next, catalog[m].name) && 4 * values[m].len()
                <= next[index_of_name(next, catalog[m].name)].data.len() by {
                let x = index_of_name(entries, catalog[m].name);
                assert(0 <= x < entries.len() && entries[x].name == catalog[m].name);
                assert(next[x].name == catalog[m].name);
                lemma_index_of_name_unique(next, x);
                assert(next[x].data.len() == entries[x].data.len());
            }
            lemma_load_from_reports_invalid(next, catalog, usage_type, values, i + 1, loaded + 1, k);
        }
    }
}

} // verus!
