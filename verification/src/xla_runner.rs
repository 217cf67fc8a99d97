//! The run orchestrator: process-wide runtime lifecycle and the
//! load → allocate → marshal → execute → harvest → teardown sequence.

use vstd::prelude::*;

use crate::codec::{bools_of_bytes, words_of_bytes};
use crate::device::DeviceModel;
use crate::nrt::{InitError, NrtPhase, NrtRuntime, NrtStatus};
use crate::tensor_set::TensorSetV;
use crate::trn::{
    allocate_tensors, allocated_entries, files_view, iterate_from, iterate_tensors,
    load_tensor_values, outputs_view, FileV, OutputFile, SaveOutputsHandler,
};

verus! {

/// The accelerator kinds this orchestrator can drive.
#[derive(Clone, Copy, Debug, PartialEq, Eq, Structural)]
pub enum XLAHardware {
    TRN,
}

/// Mathematical view of a decoded host-side output value.
#[verifier::ext_equal]
pub ghost enum OutputV {
    Bool(Seq<bool>),
    Float32(Seq<u32>),
}

/// A host-side value decoded from one output tensor's device bytes.
///
/// `Float32` carries each packed 4-byte word as its bit pattern, read
/// little-endian, so decoding stays bit-for-bit exact; `Bool` carries one
/// boolean per byte, true for every nonzero byte.  The variant must match
/// the tensor's declared data type; a mismatch is reported as a failure,
/// never silently coerced.
#[derive(Debug, Clone)]
pub enum Output {
    Bool(Vec<bool>),
    Float32(Vec<u32>),
}

impl View for Output {
    type V = OutputV;

    open spec fn view(&self) -> OutputV {
        match self {
            Output::Bool(v) => OutputV::Bool(v@),
            Output::Float32(v) => OutputV::Float32(v@),
        }
    }
}

/// Element count of a decoded output value.
pub open spec fn output_len(o: OutputV) -> nat {
    match o {
        OutputV::Bool(s) => s.len(),
        OutputV::Float32(s) => s.len(),
    }
}

/// The decoded value's variant agrees with the tensor's data type.
pub open spec fn variant_matches_dtype(o: OutputV, dtype: u32) -> bool {
    match o {
        OutputV::Bool(s) => dtype == crate::nrt::NRT_DTYPE_UINT8,
        OutputV::Float32(s) => dtype == crate::nrt::NRT_DTYPE_FLOAT32,
    }
}

/// The decoded output for `dtype` extending `o` with the given bytes:
/// packed 4-byte words for `Float32`, one boolean per byte for `UInt8`.
pub open spec fn output_extended(o: OutputV, dtype: u32, bytes: Seq<u8>) -> OutputV {
    match o {
        OutputV::Bool(s) => OutputV::Bool(s + bools_of_bytes(bytes)),
        OutputV::Float32(s) => OutputV::Float32(s + words_of_bytes(bytes)),
    }
}

impl Output {
    /// Whether the value holds no elements yet.
    pub fn is_empty(&self) -> (r: bool)
        ensures
            r == (output_len(self@) == 0),
    {
        match self {
            Output::Bool(v) => v.len() == 0,
            Output::Float32(v) => v.len() == 0,
        }
    }
}

/// The empty accumulator a dispatch hands its handler, pre-shaped by the
/// tensor's data type.
pub open spec fn empty_output_for(dtype: u32) -> OutputV {
    if dtype == crate::nrt::NRT_DTYPE_FLOAT32 {
        OutputV::Float32(Seq::empty())
    } else {
        OutputV::Bool(Seq::empty())
    }
}

/// The result of one run: the decoded outputs, the optional
/// human-readable graph text, the execute-only latency, the folded
/// harvest status, and the file records the caller persists.
#[derive(Debug, Clone)]
pub struct XLARunResults {
    /// One decoded value per harvested output tensor, in catalog order.
    pub output: Vec<Output>,
    /// The human-readable representation of the graph, when one exists.
    pub debug_ir: Option<String>,
    /// The execute-call latency in nanoseconds, without any load,
    /// allocation or harvest overhead.
    pub runtime: u64,
    /// The first non-success status the harvest met, success otherwise:
    /// a per-tensor harvest failure does not discard the rest.
    pub harvest_status: NrtStatus,
    /// The raw device bytes of each harvested tensor, to be persisted
    /// under the recorded file name.
    pub files: Vec<OutputFile>,
}

/// What one run does, over the device's own account of itself: load the
/// artifact, allocate one tensor set per direction, copy the host
/// buffers into the input tensors, execute, and harvest the output
/// tensors; the first failing step's status is the run's error.  The
/// harvest's own per-tensor failures do not fail the run: its outputs,
/// file records and folded status are returned together.
pub open spec fn run_pipeline<D: DeviceModel>(
    d: D::V,
    artifact: Seq<u8>,
    inputs: Seq<Seq<u32>>,
) -> (Result<(NrtStatus, Seq<OutputV>, Seq<FileV>), NrtStatus>, D::V) {
    let d1 = D::load_next(d, artifact);
    match D::load_result(d, artifact) {
        Err(e) => (Result::<(NrtStatus, Seq<OutputV>, Seq<FileV>), NrtStatus>::Err(e), d1),
        Ok(cat) => {
            if cat.len() == 0 || inputs.len() > cat.len() {
                (
                    Result::<(NrtStatus, Seq<OutputV>, Seq<FileV>), NrtStatus>::Err(
                        NrtStatus::Invalid,
                    ),
                    d1,
                )
            } else {
                let in0 = TensorSetV {
                    usage: crate::nrt::NRT_TENSOR_USAGE_INPUT,
                    entries: allocated_entries(cat, crate::nrt::NRT_TENSOR_USAGE_INPUT),
                };
                let out0 = TensorSetV {
                    usage: crate::nrt::NRT_TENSOR_USAGE_OUTPUT,
                    entries: allocated_entries(cat, crate::nrt::NRT_TENSOR_USAGE_OUTPUT),
                };
                let loaded = crate::trn::load_spec(
                    in0,
                    cat,
                    crate::nrt::NRT_TENSOR_USAGE_INPUT,
                    inputs,
                );
                match loaded.0 {
                    Err(e) => (
                        Result::<(NrtStatus, Seq<OutputV>, Seq<FileV>), NrtStatus>::Err(e),
                        d1,
                    ),
                    Ok(u) => {
                        let in1 = TensorSetV {
                            usage: crate::nrt::NRT_TENSOR_USAGE_INPUT,
                            entries: loaded.1,
                        };
                        let st = D::exec_status(d1, in1, out0);
                        let out1 = D::exec_entries(d1, in1, out0);
                        let d2 = D::exec_next(d1, in1, out0);
                        if st != NrtStatus::Success {
                            (
                                Result::<(NrtStatus, Seq<OutputV>, Seq<FileV>), NrtStatus>::Err(st),
                                d2,
                            )
                        } else {
                            let harvested = iterate_from::<SaveOutputsHandler>(
                                out1,
                                cat,
                                crate::nrt::NRT_TENSOR_USAGE_OUTPUT,
                                Seq::<FileV>::empty(),
                                0,
                                NrtStatus::Success,
                                Seq::<OutputV>::empty(),
                            );
                            match harvested.0 {
                                Err(e) => (
                                    Result::<(NrtStatus, Seq<OutputV>, Seq<FileV>), NrtStatus>::Err(
                                        e,
                                    ),
                                    d2,
                                ),
                                Ok(p) => (
                                    Result::<(NrtStatus, Seq<OutputV>, Seq<FileV>), NrtStatus>::Ok(
                                        (p.0, p.1, harvested.1),
                                    ),
                                    d2,
                                ),
                            }
                        }
                    },
                }
            }
        },
    }
}

/// The run orchestrator for one accelerator kind.  Its construction
/// initializes the process-wide device runtime; [`XLARunner::close`]
/// shuts the runtime down, after which no runner can be built again in
/// the same process.
pub struct XLARunner {
    hardware: XLAHardware,
}

impl XLARunner {
    /// Initializes the device runtime for this accelerator and hands
    /// back the runner.  The runtime initializes at most once per
    /// process: a second attempt while it is live, or any attempt after
    /// a close, fails with the matching typed error — a documented
    /// limitation of the underlying runtime, never retried.
    pub fn new(hardware: XLAHardware, runtime: &mut NrtRuntime) -> (r: Result<
        XLARunner,
        InitError,
    >)
        ensures
            match r {
                Ok(runner) => old(runtime).phase() == NrtPhase::Fresh && final(runtime).phase()
                    == NrtPhase::Live,
                Err(e) => *final(runtime) == *old(runtime) && ((e == InitError::AlreadyInitialized
                    && old(runtime).phase() == NrtPhase::Live) || (e == InitError::AlreadyClosed
                    && old(runtime).phase() == NrtPhase::Closed)),
            },
    {
        match hardware {
            XLAHardware::TRN => {
                match runtime.init() {
                    Ok(()) => Ok(XLARunner { hardware }),
                    Err(e) => Err(e),
                }
            },
        }
    }

    /// Shuts the device runtime down.  After this, no runner can be
    /// built again in this process.
    pub fn close(self, runtime: &mut NrtRuntime)
        requires
            old(runtime).phase() == NrtPhase::Live,
        ensures
            final(runtime).phase() == NrtPhase::Closed,
    {
        match self.hardware {
            XLAHardware::TRN => runtime.close(),
        }
    }

    /// Runs the compiled artifact once: loads it into the device,
    /// allocates the input and output tensor sets, copies the host
    /// buffers into the input tensors, executes, harvests the output
    /// tensors, and returns the decoded outputs together with the file
    /// records to persist; see [`run_pipeline`] for the exact outcome.
    /// Both tensor sets and the catalog are owned values, so the device
    /// resources they model are released on every exit path.  The names
    /// and shapes must pair with the buffers; beyond that the shapes are
    /// carried for the caller's bookkeeping only.
    #[allow(unused_variables)]
    pub fn run_trn<D: DeviceModel>(
        &self,
        device: &mut D,
        artifact: &Vec<u8>,
        run_name: &str,
        input_names: &Vec<Vec<u8>>,
        inputs: Vec<Vec<u32>>,
        input_shapes: Vec<Vec<u64>>,
    ) -> (r: Result<XLARunResults, NrtStatus>)
        requires
            input_names@.len() == inputs@.len(),
            input_shapes@.len() == inputs@.len(),
        ensures
            ({
                let piped = run_pipeline::<D>(old(device)@, artifact@, inputs.deep_view());
                &&& final(device)@ == piped.1
                &&& match (r, piped.0) {
                    (Ok(res), Ok(q)) => res.harvest_status == q.0 && outputs_view(res.output@)
                        == q.1 && files_view(res.files@) == q.2 && res.debug_ir is None,
                    (Err(e1), Err(e2)) => e1 == e2,
                    _ => false,
                }
            }),
    {
        let ghost vals = inputs.deep_view();
        let catalog = match device.load(artifact) {
            Ok(c) => c,
            Err(e) => {
                return Err(e);
            },
        };
        let mut nrt_inputs = match allocate_tensors(&catalog, crate::nrt::NRT_TENSOR_USAGE_INPUT) {
            Ok(s) => s,
            Err(e) => {
                return Err(e);
            },
        };
        let mut outputs = match allocate_tensors(&catalog, crate::nrt::NRT_TENSOR_USAGE_OUTPUT) {
            Ok(s) => s,
            Err(e) => {
                return Err(e);
            },
        };
        if inputs.len() > catalog.len() {
            return Err(NrtStatus::Invalid);
        }
        let ghost in0 = nrt_inputs@;
        if inputs.len() != 0 {
            match load_tensor_values(
                &mut nrt_inputs,
                &catalog,
                crate::nrt::NRT_TENSOR_USAGE_INPUT,
                &inputs,
            ) {
                Ok(()) => {
                },
                Err(e) => {
                    return Err(e);
                },
            }
        } else {
            proof {
                assert(crate::trn::load_spec(
                    in0,
                    catalog@,
                    crate::nrt::NRT_TENSOR_USAGE_INPUT,
                    vals,
                ).1 == in0.entries);
            }
        }
        proof {
            assert(nrt_inputs@ =~= TensorSetV {
                usage: crate::nrt::NRT_TENSOR_USAGE_INPUT,
                entries: crate::trn::load_spec(
                    in0,
                    catalog@,
                    crate::nrt::NRT_TENSOR_USAGE_INPUT,
                    vals,
                ).1,
            });
        }
        let ghost out0 = outputs@;
        let (status, elapsed) = device.execute(&nrt_inputs, &mut outputs);
        if status != NrtStatus::Success {
            return Err(status);
        }
        proof {
            assert(crate::tensor_set::set_wf(outputs@)) by {
                assert(forall|a: int, b: int|
                    0 <= a < b < outputs@.entries.len() ==> outputs@.entries[a].name == out0.entries[a].name
                        && outputs@.entries[b].name == out0.entries[b].name);
            }
            assert forall|i: int|
                0 <= i < catalog@.len() && (#[trigger] catalog@[i]).usage
                    == crate::nrt::NRT_TENSOR_USAGE_OUTPUT && crate::tensor_set::contains_name(
                    outputs@.entries,
                    catalog@[i].name,
                ) implies crate::nrt::dtype_supported(catalog@[i].dtype) by {
                assert(crate::catalog::info_wf(catalog@[i]));
            }
        }
        let mut handler = SaveOutputsHandler::new();
        let harvested = iterate_tensors(
            &outputs,
            &catalog,
            crate::nrt::NRT_TENSOR_USAGE_OUTPUT,
            &mut handler,
        );
        let (final_status, output) = match harvested {
            Ok(p) => p,
            Err(e) => {
                return Err(e);
            },
        };
        Ok(
            XLARunResults {
                output,
                debug_ir: None,
                runtime: elapsed,
                harvest_status: final_status,
                files: handler.files,
            },
        )
    }
}

/// Builds the empty accumulator matching [`empty_output_for`].
pub fn make_empty_output(dtype: u32) -> (r: Output)
    ensures
        r@ == empty_output_for(dtype),
{
    if dtype == crate::nrt::NRT_DTYPE_FLOAT32 {
        let r = Output::Float32(Vec::new());
        proof {
            assert(r@ =~= empty_output_for(dtype));
        }
        r
    } else {
        let r = Output::Bool(Vec::new());
        proof {
            assert(r@ =~= empty_output_for(dtype));
        }
        r
    }
}

} // verus!
