//! Tests of the tensor-set engine: allocation, loading and dispatch.

use xla::catalog::{TensorInfo, TensorInfoCatalog};
use xla::nrt::{
    NrtStatus, NRT_DTYPE_FLOAT32, NRT_DTYPE_UINT8, NRT_TENSOR_USAGE_INPUT, NRT_TENSOR_USAGE_OUTPUT,
};
use xla::tensor_set::{DeviceTensor, TensorSet};
use xla::trn::{
    allocate_tensors, handler_save_outputs, iterate_tensors, load_tensor_values, ProbeHandler,
    SaveOutputsHandler,
};
use xla::xla_runner::Output;

fn info(name: &[u8], dtype: u32, size: usize, usage: u32) -> TensorInfo {
    TensorInfo { name: name.to_vec(), dtype, size, usage }
}

fn catalog(entries: Vec<TensorInfo>) -> TensorInfoCatalog {
    TensorInfoCatalog::from_entries(entries).unwrap()
}

#[test]
fn allocate_rejects_empty_catalog_both_directions() {
    let cat = catalog(vec![]);
    let r = allocate_tensors(&cat, NRT_TENSOR_USAGE_INPUT);
    assert!(matches!(r, Err(NrtStatus::Invalid)));
    let r = allocate_tensors(&cat, NRT_TENSOR_USAGE_OUTPUT);
    assert!(matches!(r, Err(NrtStatus::Invalid)));
}

#[test]
fn allocate_rejects_invalid_direction() {
    let cat = catalog(vec![info(b"x", NRT_DTYPE_FLOAT32, 4, NRT_TENSOR_USAGE_INPUT)]);
    let r = allocate_tensors(&cat, 7);
    assert!(matches!(r, Err(NrtStatus::Invalid)));
}

#[test]
fn allocate_creates_only_matching_direction() {
    let cat = catalog(vec![
        info(b"a", NRT_DTYPE_FLOAT32, 8, NRT_TENSOR_USAGE_INPUT),
        info(b"b", NRT_DTYPE_FLOAT32, 4, NRT_TENSOR_USAGE_OUTPUT),
        info(b"c", NRT_DTYPE_UINT8, 3, NRT_TENSOR_USAGE_INPUT),
    ]);
    let set = allocate_tensors(&cat, NRT_TENSOR_USAGE_INPUT).unwrap();
    assert_eq!(set.tensors.len(), 2);
    assert_eq!(set.tensors[0].name, b"a".to_vec());
    assert_eq!(set.tensors[0].data, vec![0u8; 8]);
    assert_eq!(set.tensors[1].name, b"c".to_vec());
    assert_eq!(set.tensors[1].data, vec![0u8; 3]);
    let set = allocate_tensors(&cat, NRT_TENSOR_USAGE_OUTPUT).unwrap();
    assert_eq!(set.tensors.len(), 1);
    assert_eq!(set.tensors[0].name, b"b".to_vec());
    assert_eq!(set.tensors[0].data, vec![0u8; 4]);
}

#[test]
fn load_then_read_back_round_trips() {
    let cat = catalog(vec![info(b"x", NRT_DTYPE_FLOAT32, 8, NRT_TENSOR_USAGE_INPUT)]);
    let mut set = allocate_tensors(&cat, NRT_TENSOR_USAGE_INPUT).unwrap();
    let words: Vec<u32> = vec![1.5f32.to_bits(), (-2.25f32).to_bits()];
    let values = vec![words.clone()];
    load_tensor_values(&mut set, &cat, NRT_TENSOR_USAGE_INPUT, &values).unwrap();
    let j = set.get_tensor_index(&b"x".to_vec()).unwrap();
    let bytes = set.tensor_read(j, 8).unwrap();
    let back = xla::codec::decode_words(&bytes);
    assert_eq!(back, words);
    assert_eq!(f32::from_bits(back[0]), 1.5f32);
    assert_eq!(f32::from_bits(back[1]), -2.25f32);
}

#[test]
fn load_empty_values_is_a_noop_success() {
    let cat = catalog(vec![info(b"x", NRT_DTYPE_FLOAT32, 4, NRT_TENSOR_USAGE_INPUT)]);
    let mut set = allocate_tensors(&cat, NRT_TENSOR_USAGE_INPUT).unwrap();
    let values: Vec<Vec<u32>> = vec![];
    assert!(load_tensor_values(&mut set, &cat, NRT_TENSOR_USAGE_INPUT, &values).is_ok());
    assert_eq!(set.tensors[0].data, vec![0u8; 4]);
}

#[test]
fn load_rejects_invalid_direction() {
    let cat = catalog(vec![info(b"x", NRT_DTYPE_FLOAT32, 4, NRT_TENSOR_USAGE_INPUT)]);
    let mut set = allocate_tensors(&cat, NRT_TENSOR_USAGE_INPUT).unwrap();
    let values = vec![vec![0u32]];
    let r = load_tensor_values(&mut set, &cat, 9, &values);
    assert!(matches!(r, Err(NrtStatus::Invalid)));
}

#[test]
fn load_rejects_length_mismatch_and_writes_nothing_for_it() {
    let cat = catalog(vec![info(b"x", NRT_DTYPE_FLOAT32, 8, NRT_TENSOR_USAGE_INPUT)]);
    let mut set = allocate_tensors(&cat, NRT_TENSOR_USAGE_INPUT).unwrap();
    // one word where the tensor holds two: invalid-argument, tensor untouched
    let values = vec![vec![7u32]];
    let r = load_tensor_values(&mut set, &cat, NRT_TENSOR_USAGE_INPUT, &values);
    assert!(matches!(r, Err(NrtStatus::Invalid)));
    assert_eq!(set.tensors[0].data, vec![0u8; 8]);
}

#[test]
fn load_fails_on_write_count_mismatch() {
    // the second buffer pairs with an output entry: it is skipped, so
    // fewer tensors are written than buffers were handed in
    let cat = catalog(vec![
        info(b"a", NRT_DTYPE_FLOAT32, 4, NRT_TENSOR_USAGE_INPUT),
        info(b"b", NRT_DTYPE_FLOAT32, 4, NRT_TENSOR_USAGE_OUTPUT),
    ]);
    let mut set = allocate_tensors(&cat, NRT_TENSOR_USAGE_INPUT).unwrap();
    let values = vec![vec![1u32], vec![2u32]];
    let r = load_tensor_values(&mut set, &cat, NRT_TENSOR_USAGE_INPUT, &values);
    assert!(matches!(r, Err(NrtStatus::Failure)));
}

#[test]
fn load_fails_when_a_name_does_not_resolve() {
    let cat = catalog(vec![info(b"x", NRT_DTYPE_FLOAT32, 4, NRT_TENSOR_USAGE_INPUT)]);
    let mut set = TensorSet::empty(NRT_TENSOR_USAGE_INPUT);
    let values = vec![vec![1u32]];
    let r = load_tensor_values(&mut set, &cat, NRT_TENSOR_USAGE_INPUT, &values);
    assert!(matches!(r, Err(NrtStatus::Failure)));
}

#[test]
fn dispatch_decodes_float32_and_bool_outputs() {
    let cat = catalog(vec![
        info(b"f", NRT_DTYPE_FLOAT32, 16, NRT_TENSOR_USAGE_OUTPUT),
        info(b"u", NRT_DTYPE_UINT8, 4, NRT_TENSOR_USAGE_OUTPUT),
    ]);
    let mut set = allocate_tensors(&cat, NRT_TENSOR_USAGE_OUTPUT).unwrap();
    let f_words: Vec<u32> = vec![
        1.0f32.to_bits(),
        2.0f32.to_bits(),
        (-3.5f32).to_bits(),
        0.25f32.to_bits(),
    ];
    let f_bytes = xla::codec::encode_words(&f_words);
    let jf = set.get_tensor_index(&b"f".to_vec()).unwrap();
    set.tensor_write(jf, &f_bytes).unwrap();
    let ju = set.get_tensor_index(&b"u".to_vec()).unwrap();
    set.tensor_write(ju, &vec![0u8, 1u8, 0u8, 255u8]).unwrap();

    let mut handler = SaveOutputsHandler::new();
    let (status, outputs) =
        iterate_tensors(&set, &cat, NRT_TENSOR_USAGE_OUTPUT, &mut handler).unwrap();
    assert_eq!(status, NrtStatus::Success);
    assert_eq!(outputs.len(), 2);
    match &outputs[0] {
        Output::Float32(v) => assert_eq!(v, &f_words),
        Output::Bool(_) => panic!("expected a Float32 output"),
    }
    match &outputs[1] {
        Output::Bool(v) => assert_eq!(v, &vec![false, true, false, true]),
        Output::Float32(_) => panic!("expected a Bool output"),
    }
    // the raw bytes were recorded for persistence, under the .out names
    assert_eq!(handler.files.len(), 2);
    assert_eq!(handler.files[0].name, b"f.out".to_vec());
    assert_eq!(handler.files[0].bytes, f_bytes);
    assert_eq!(handler.files[1].name, b"u.out".to_vec());
    assert_eq!(handler.files[1].bytes, vec![0u8, 1u8, 0u8, 255u8]);
}

#[test]
fn dispatch_skips_other_direction_and_unresolved_names() {
    let cat = catalog(vec![
        info(b"in", NRT_DTYPE_FLOAT32, 4, NRT_TENSOR_USAGE_INPUT),
        info(b"gone", NRT_DTYPE_FLOAT32, 4, NRT_TENSOR_USAGE_OUTPUT),
    ]);
    // an empty set: the output entry's name does not resolve, and that
    // is a silent skip, not an error
    let set = TensorSet::empty(NRT_TENSOR_USAGE_OUTPUT);
    let mut handler = SaveOutputsHandler::new();
    let (status, outputs) =
        iterate_tensors(&set, &cat, NRT_TENSOR_USAGE_OUTPUT, &mut handler).unwrap();
    assert_eq!(status, NrtStatus::Success);
    assert_eq!(outputs.len(), 0);
    assert_eq!(handler.files.len(), 0);
}

#[test]
fn dispatch_aborts_with_the_handlers_status() {
    let cat = catalog(vec![
        info(b"y1", NRT_DTYPE_FLOAT32, 4, NRT_TENSOR_USAGE_OUTPUT),
        info(b"y2", NRT_DTYPE_FLOAT32, 4, NRT_TENSOR_USAGE_OUTPUT),
    ]);
    let set = allocate_tensors(&cat, NRT_TENSOR_USAGE_OUTPUT).unwrap();
    let mut handler = ProbeHandler { go_on: false, status: NrtStatus::Failure, seen: vec![] };
    let r = iterate_tensors(&set, &cat, NRT_TENSOR_USAGE_OUTPUT, &mut handler);
    assert!(matches!(r, Err(NrtStatus::Failure)));
    // the first tensor was handed to the handler; no later entry was
    assert_eq!(handler.seen, vec![b"y1".to_vec()]);
}

#[test]
fn dispatch_folds_first_failure_sticky() {
    let cat = catalog(vec![
        info(b"y1", NRT_DTYPE_FLOAT32, 4, NRT_TENSOR_USAGE_OUTPUT),
        info(b"y2", NRT_DTYPE_FLOAT32, 4, NRT_TENSOR_USAGE_OUTPUT),
    ]);
    let set = allocate_tensors(&cat, NRT_TENSOR_USAGE_OUTPUT).unwrap();
    // the handler keeps dispatch going but reports a failure each time
    let mut handler = ProbeHandler { go_on: true, status: NrtStatus::Invalid, seen: vec![] };
    let (status, outputs) =
        iterate_tensors(&set, &cat, NRT_TENSOR_USAGE_OUTPUT, &mut handler).unwrap();
    assert_eq!(status, NrtStatus::Invalid);
    assert_eq!(outputs.len(), 0);
    assert_eq!(handler.seen.len(), 2);
}

#[test]
fn catalog_rejects_malformed_entries() {
    // repeated name
    assert!(TensorInfoCatalog::from_entries(vec![
        info(b"x", NRT_DTYPE_FLOAT32, 4, NRT_TENSOR_USAGE_INPUT),
        info(b"x", NRT_DTYPE_FLOAT32, 4, NRT_TENSOR_USAGE_OUTPUT),
    ])
    .is_none());
    // invalid direction
    assert!(
        TensorInfoCatalog::from_entries(vec![info(b"x", NRT_DTYPE_FLOAT32, 4, 3)]).is_none()
    );
    // size not a whole number of elements
    assert!(TensorInfoCatalog::from_entries(vec![info(
        b"x",
        NRT_DTYPE_FLOAT32,
        6,
        NRT_TENSOR_USAGE_INPUT
    )])
    .is_none());
    // a data type this engine cannot decode
    assert!(TensorInfoCatalog::from_entries(vec![info(b"x", 99, 4, NRT_TENSOR_USAGE_INPUT)])
        .is_none());
}

#[test]
fn harvest_reports_failures_without_stopping() {
    // a device read past the tensor's end fails; the handler records the
    // failure in the status slot but still asks the dispatch to go on,
    // and nothing is persisted
    let short = DeviceTensor { name: b"s".to_vec(), data: vec![0u8; 2] };
    let too_big = info(b"s", NRT_DTYPE_FLOAT32, 4, NRT_TENSOR_USAGE_OUTPUT);
    let mut status = NrtStatus::Success;
    let mut value = Output::Float32(vec![]);
    let mut files = vec![];
    let cont = handler_save_outputs(&short, &too_big, &mut status, &mut value, &mut files);
    assert!(cont);
    assert_eq!(status, NrtStatus::Failure);
    assert!(files.is_empty());
    assert!(matches!(&value, Output::Float32(v) if v.is_empty()));

    // a declared data type disagreeing with the accumulator's variant is
    // a hard mismatch: recorded as failure, file still persisted, value
    // left alone, dispatch asked to go on
    let whole = DeviceTensor { name: b"w".to_vec(), data: vec![1u8, 0u8, 0u8, 0u8] };
    let f32_info = info(b"w", NRT_DTYPE_FLOAT32, 4, NRT_TENSOR_USAGE_OUTPUT);
    let mut status = NrtStatus::Success;
    let mut value = Output::Bool(vec![]);
    let mut files = vec![];
    let cont = handler_save_outputs(&whole, &f32_info, &mut status, &mut value, &mut files);
    assert!(cont);
    assert_eq!(status, NrtStatus::Failure);
    assert_eq!(files.len(), 1);
    assert_eq!(files[0].name, b"w.out".to_vec());
    assert_eq!(files[0].bytes, vec![1u8, 0u8, 0u8, 0u8]);
    assert!(matches!(&value, Output::Bool(v) if v.is_empty()));
}

#[test]
fn codec_packs_little_endian_exactly() {
    let words: Vec<u32> = vec![0x0403_0201, 0xF00D_BEEF];
    let bytes = xla::codec::encode_words(&words);
    assert_eq!(
        bytes,
        vec![0x01u8, 0x02, 0x03, 0x04, 0xEF, 0xBE, 0x0D, 0xF0]
    );
    assert_eq!(xla::codec::decode_words(&bytes), words);
    let bools = xla::codec::decode_bools(&vec![0u8, 2u8, 0u8]);
    assert_eq!(bools, vec![false, true, false]);
}
