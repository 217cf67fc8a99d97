//! The device boundary of a run: loading a compiled artifact and
//! executing the graph are the two steps only the device runtime can
//! perform, so they enter the orchestrator as an injected capability
//! with a mathematical account of itself.

use vstd::prelude::*;

use crate::catalog::{catalog_wf, TensorInfoCatalog, TensorInfoV};
use crate::nrt::NrtStatus;
use crate::tensor_set::{copy_bytes, EntryV, TensorSet, TensorSetV};

verus! {

/// A loaded-model capability: turns a compiled artifact into a tensor
/// catalog and executes the graph over device tensors.  Its observable
/// state is its view; the spec functions say what each call returns and
/// how the state moves, and the contracts promise only what holds of
/// every device: a produced catalog is well-formed, and execution
/// rewrites tensor contents without renaming or resizing any tensor.
pub trait DeviceModel: Sized + View {
    /// The catalog the device derives from an artifact, or the status it
    /// rejects it with.
    spec fn load_result(s: Self::V, artifact: Seq<u8>) -> Result<Seq<TensorInfoV>, NrtStatus>;

    /// The device state after a load.
    spec fn load_next(s: Self::V, artifact: Seq<u8>) -> Self::V;

    /// Loads a compiled artifact and hands back the model's catalog.
    fn load(&mut self, artifact: &Vec<u8>) -> (r: Result<TensorInfoCatalog, NrtStatus>)
        ensures
            final(self)@ == Self::load_next(old(self)@, artifact@),
            match (r, Self::load_result(old(self)@, artifact@)) {
                (Ok(c), Ok(cv)) => c@ == cv && catalog_wf(cv),
                (Err(e1), Err(e2)) => e1 == e2,
                _ => false,
            },
    ;

    /// The status one execution reports.
    spec fn exec_status(s: Self::V, inputs: TensorSetV, outputs: TensorSetV) -> NrtStatus;

    /// The output entries one execution leaves behind.
    spec fn exec_entries(s: Self::V, inputs: TensorSetV, outputs: TensorSetV) -> Seq<EntryV>;

    /// The device state after one execution.
    spec fn exec_next(s: Self::V, inputs: TensorSetV, outputs: TensorSetV) -> Self::V;

    /// Runs the graph: reads the input tensors, rewrites the output
    /// tensors in place.  The second result is the call's latency in
    /// nanoseconds, of which nothing is promised.
    fn execute(&mut self, inputs: &TensorSet, outputs: &mut TensorSet) -> (r: (NrtStatus, u64))
        ensures
            r.0 == Self::exec_status(old(self)@, inputs@, old(outputs)@),
            final(self)@ == Self::exec_next(old(self)@, inputs@, old(outputs)@),
            final(outputs)@.usage == old(outputs)@.usage,
            final(outputs)@.entries == Self::exec_entries(old(self)@, inputs@, old(outputs)@),
            final(outputs)@.entries.len() == old(outputs)@.entries.len(),
            forall|k: int|
                0 <= k < old(outputs)@.entries.len()
                    ==> (#[trigger] final(outputs)@.entries[k]).name
                    == old(outputs)@.entries[k].name
                    && final(outputs)@.entries[k].data.len()
                    == old(outputs)@.entries[k].data.len(),
    ;
}

/// The output entries after an echo pass: each output tensor takes the
/// bytes of the input tensor at the same position when there is one of
/// the same size, and keeps its contents otherwise.
pub open spec fn echo_entries(ins: Seq<EntryV>, outs: Seq<EntryV>) -> Seq<EntryV> {
    Seq::new(
        outs.len(),
        |k: int|
            if 0 <= k < ins.len() && ins[k].data.len() == outs[k].data.len() {
                EntryV { name: outs[k].name, data: ins[k].data }
            } else {
                outs[k]
            },
    )
}

/// An in-memory device that echoes its inputs: loading hands back a
/// fixed catalog, and execution copies each input tensor's bytes into
/// the output tensor at the same position when the sizes agree.  It
/// stands in for the hardware wherever a run is exercised without a
/// device.
pub struct EchoDevice {
    catalog: TensorInfoCatalog,
}

impl View for EchoDevice {
    type V = Seq<TensorInfoV>;

    closed spec fn view(&self) -> Seq<TensorInfoV> {
        self.catalog@
    }
}

impl EchoDevice {
    #[verifier::type_invariant]
    spec fn wf(self) -> bool {
        catalog_wf(self.catalog@)
    }

    /// A device that will report this catalog for every artifact.
    pub fn new(catalog: TensorInfoCatalog) -> (r: EchoDevice)
        requires
            catalog_wf(catalog@),
        ensures
            r@ == catalog@,
    {
        EchoDevice { catalog }
    }
}

impl DeviceModel for EchoDevice {
    open spec fn load_result(s: Seq<TensorInfoV>, artifact: Seq<u8>) -> Result<
        Seq<TensorInfoV>,
        NrtStatus,
    > {
        Ok(s)
    }

    open spec fn load_next(s: Seq<TensorInfoV>, artifact: Seq<u8>) -> Seq<TensorInfoV> {
        s
    }

    fn load(&mut self, artifact: &Vec<u8>) -> (r: Result<TensorInfoCatalog, NrtStatus>) {
        proof {
            use_type_invariant(&*self);
        }
        let mut entries: Vec<crate::catalog::TensorInfo> = Vec::new();
        let n: usize = self.catalog.entries.len();
        let mut i: usize = 0;
        while i < n
            invariant
                i <= n,
                n == self.catalog.entries@.len(),
                entries@.len() == i,
                forall|m: int| 0 <= m < i ==> (#[trigger] entries@[m])@ == self.catalog@[m],
            decreases n - i,
        {
            let t = &self.catalog.entries[i];
            let copy = crate::catalog::TensorInfo {
                name: copy_bytes(&t.name),
                dtype: t.dtype,
                size: t.size,
                usage: t.usage,
            };
            proof {
                assert(copy@ == self.catalog@[i as int]);
            }
            entries.push(copy);
            i = i + 1;
        }
        let c = TensorInfoCatalog { entries };
        proof {
            assert(c@ =~= self.catalog@);
        }
        Ok(c)
    }

    open spec fn exec_status(
        s: Seq<TensorInfoV>,
        inputs: TensorSetV,
        outputs: TensorSetV,
    ) -> NrtStatus {
        NrtStatus::Success
    }

    open spec fn exec_entries(
        s: Seq<TensorInfoV>,
        inputs: TensorSetV,
        outputs: TensorSetV,
    ) -> Seq<EntryV> {
        echo_entries(inputs.entries, outputs.entries)
    }

    open spec fn exec_next(
        s: Seq<TensorInfoV>,
        inputs: TensorSetV,
        outputs: TensorSetV,
    ) -> Seq<TensorInfoV> {
        s
    }

    fn execute(&mut self, inputs: &TensorSet, outputs: &mut TensorSet) -> (r: (NrtStatus, u64)) {
        let ghost ins = inputs@.entries;
        let ghost orig = outputs@.entries;
        let n: usize = outputs.tensors.len();
        let mut k: usize = 0;
        while k < n
            invariant
                k <= n,
                n == outputs@.entries.len(),
                outputs@.entries.len() == orig.len(),
                outputs@.usage == old(outputs)@.usage,
                ins == inputs@.entries,
                orig == old(outputs)@.entries,
                forall|m: int| k <= m < orig.len() ==> #[trigger] outputs@.entries[m] == orig[m],
                forall|m: int| 0 <= m < k ==> #[trigger] outputs@.entries[m] == echo_entries(
                    ins,
                    orig,
                )[m],
            decreases n - k,
        {
            if k < inputs.tensors.len() && inputs.tensors[k].data.len()
                == outputs.tensors[k].data.len() {
                let bytes = copy_bytes(&inputs.tensors[k].data);
                let ghost before = outputs@.entries;
                match outputs.tensor_write(k, &bytes) {
                    Ok(()) => {
                        proof {
                            assert(outputs@.entries[k as int].data =~= ins[k as int].data);
                            assert(outputs@.entries[k as int] == echo_entries(ins, orig)[k as int]);
                        }
                    },
                    Err(_) => {
                        proof {
                            assert(false);
                        }
                    },
                }
            } else {
                proof {
                    assert(outputs@.entries[k as int] == echo_entries(ins, orig)[k as int]);
                }
            }
            k = k + 1;
        }
        proof {
            assert(outputs@.entries =~= echo_entries(ins, orig));
        }
        (NrtStatus::Success, 0)
    }
}

} // verus!
