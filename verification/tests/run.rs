//! Tests of the run orchestrator and the process-wide runtime lifecycle.

use xla::catalog::{TensorInfo, TensorInfoCatalog};
use xla::device::EchoDevice;
use xla::nrt::{
    InitError, NrtRuntime, NrtStatus, NRT_DTYPE_FLOAT32, NRT_TENSOR_USAGE_INPUT,
    NRT_TENSOR_USAGE_OUTPUT,
};
use xla::xla_runner::{Output, XLAHardware, XLARunner};

fn info(name: &[u8], dtype: u32, size: usize, usage: u32) -> TensorInfo {
    TensorInfo { name: name.to_vec(), dtype, size, usage }
}

fn catalog(entries: Vec<TensorInfo>) -> TensorInfoCatalog {
    TensorInfoCatalog::from_entries(entries).unwrap()
}

#[test]
fn nrt_test_bindings_loaded() {
    let mut runtime = NrtRuntime::start();
    XLARunner::new(XLAHardware::TRN, &mut runtime).unwrap();
}

#[test]
fn transformer_xla_benchmark() {
    let mut runtime = NrtRuntime::start();
    let runner = XLARunner::new(XLAHardware::TRN, &mut runtime).unwrap();
    let run_name = "transformer_test";

    let cat = catalog(vec![
        info(b"tokens", NRT_DTYPE_FLOAT32, 16, NRT_TENSOR_USAGE_INPUT),
        info(b"logits", NRT_DTYPE_FLOAT32, 16, NRT_TENSOR_USAGE_OUTPUT),
    ]);
    let mut device = EchoDevice::new(cat);
    let artifact: Vec<u8> = vec![];

    let inputs: Vec<Vec<u32>> = vec![];
    let input_names: Vec<Vec<u8>> = vec![];
    let input_shapes: Vec<Vec<u64>> = vec![];
    assert_eq!(input_names.len(), inputs.len());
    assert_eq!(input_shapes.len(), inputs.len());

    runner
        .run_trn(
            &mut device,
            &artifact,
            run_name,
            &input_names,
            inputs,
            input_shapes,
        )
        .unwrap();
    println!("Done");
}

#[test]
fn run_echoes_one_input_to_one_output() {
    let mut runtime = NrtRuntime::start();
    let runner = XLARunner::new(XLAHardware::TRN, &mut runtime).unwrap();
    let cat = catalog(vec![
        info(b"x", NRT_DTYPE_FLOAT32, 4, NRT_TENSOR_USAGE_INPUT),
        info(b"y", NRT_DTYPE_FLOAT32, 4, NRT_TENSOR_USAGE_OUTPUT),
    ]);
    let mut device = EchoDevice::new(cat);
    let artifact: Vec<u8> = vec![1u8, 2u8, 3u8];

    let results = runner
        .run_trn(
            &mut device,
            &artifact,
            "echo_test",
            &vec![b"x".to_vec()],
            vec![vec![2.5f32.to_bits()]],
            vec![vec![1u64]],
        )
        .unwrap();

    assert_eq!(results.harvest_status, NrtStatus::Success);
    assert!(results.debug_ir.is_none());
    assert_eq!(results.output.len(), 1);
    match &results.output[0] {
        Output::Float32(v) => {
            assert_eq!(v.len(), 1);
            assert_eq!(f32::from_bits(v[0]), 2.5f32);
        },
        Output::Bool(_) => panic!("expected a Float32 output"),
    }
    // the harvest records y's raw device bytes for persistence under
    // the tensor's name with the fixed output extension
    assert_eq!(results.files.len(), 1);
    assert_eq!(results.files[0].name, b"y.out".to_vec());
    assert_eq!(results.files[0].bytes, 2.5f32.to_bits().to_le_bytes().to_vec());
}

#[test]
fn run_replaces_an_existing_extension() {
    let mut runtime = NrtRuntime::start();
    let runner = XLARunner::new(XLAHardware::TRN, &mut runtime).unwrap();
    let cat = catalog(vec![
        info(b"x", NRT_DTYPE_FLOAT32, 4, NRT_TENSOR_USAGE_INPUT),
        info(b"y.bin", NRT_DTYPE_FLOAT32, 4, NRT_TENSOR_USAGE_OUTPUT),
    ]);
    let mut device = EchoDevice::new(cat);
    let results = runner
        .run_trn(
            &mut device,
            &vec![],
            "ext_test",
            &vec![b"x".to_vec()],
            vec![vec![1.0f32.to_bits()]],
            vec![vec![1u64]],
        )
        .unwrap();
    assert_eq!(results.files.len(), 1);
    assert_eq!(results.files[0].name, b"y.out".to_vec());
}

#[test]
fn run_rejects_an_empty_catalog() {
    let mut runtime = NrtRuntime::start();
    let runner = XLARunner::new(XLAHardware::TRN, &mut runtime).unwrap();
    let mut device = EchoDevice::new(catalog(vec![]));
    let r = runner.run_trn(
        &mut device,
        &vec![],
        "empty_test",
        &vec![],
        vec![],
        vec![],
    );
    assert!(matches!(r, Err(NrtStatus::Invalid)));
}

#[test]
fn run_propagates_a_load_length_mismatch() {
    let mut runtime = NrtRuntime::start();
    let runner = XLARunner::new(XLAHardware::TRN, &mut runtime).unwrap();
    let cat = catalog(vec![
        info(b"x", NRT_DTYPE_FLOAT32, 8, NRT_TENSOR_USAGE_INPUT),
        info(b"y", NRT_DTYPE_FLOAT32, 8, NRT_TENSOR_USAGE_OUTPUT),
    ]);
    let mut device = EchoDevice::new(cat);
    let r = runner.run_trn(
        &mut device,
        &vec![],
        "mismatch_test",
        &vec![b"x".to_vec()],
        vec![vec![1u32]],
        vec![vec![1u64]],
    );
    assert!(matches!(r, Err(NrtStatus::Invalid)));
}

#[test]
fn second_initialize_after_close_fails_deterministically() {
    let mut runtime = NrtRuntime::start();
    let runner = XLARunner::new(XLAHardware::TRN, &mut runtime).unwrap();

    // a first run goes through
    let cat = catalog(vec![
        info(b"x", NRT_DTYPE_FLOAT32, 4, NRT_TENSOR_USAGE_INPUT),
        info(b"y", NRT_DTYPE_FLOAT32, 4, NRT_TENSOR_USAGE_OUTPUT),
    ]);
    let mut device = EchoDevice::new(cat);
    runner
        .run_trn(
            &mut device,
            &vec![],
            "first_run",
            &vec![b"x".to_vec()],
            vec![vec![1.0f32.to_bits()]],
            vec![vec![1u64]],
        )
        .unwrap();
    runner.close(&mut runtime);

    // after the close, the runtime never comes back in this process:
    // a second runner cannot be built, so no second run can start
    let again = XLARunner::new(XLAHardware::TRN, &mut runtime);
    assert!(matches!(again, Err(InitError::AlreadyClosed)));
}

#[test]
fn second_initialize_while_live_fails() {
    let mut runtime = NrtRuntime::start();
    let _runner = XLARunner::new(XLAHardware::TRN, &mut runtime).unwrap();
    let again = XLARunner::new(XLAHardware::TRN, &mut runtime);
    assert!(matches!(again, Err(InitError::AlreadyInitialized)));
}
