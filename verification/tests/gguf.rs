use chat_wgpu::loader::gguf::{GgufWeights, Meta};
use chat_wgpu::loader::TensorError;

fn gstr(out: &mut Vec<u8>, s: &str) {
    out.extend_from_slice(&(s.len() as u64).to_le_bytes());
    out.extend_from_slice(s.as_bytes());
}

fn floats(bits: &[u32]) -> Vec<f32> {
    bits.iter().map(|&b| f32::from_bits(b)).collect()
}

fn header(n_tensors: u64, n_meta: u64) -> Vec<u8> {
    let mut b = Vec::new();
    b.extend_from_slice(b"GGUF");
    b.extend_from_slice(&3u32.to_le_bytes()); // version
    b.extend_from_slice(&n_tensors.to_le_bytes());
    b.extend_from_slice(&n_meta.to_le_bytes());
    b
}

fn pad32(mut b: Vec<u8>) -> Vec<u8> {
    while b.len() % 32 != 0 {
        b.push(0);
    }
    b
}

fn tensor_info(b: &mut Vec<u8>, name: &str, dims: &[u64], dtype: u32, offset: u64) {
    gstr(b, name);
    b.extend_from_slice(&(dims.len() as u32).to_le_bytes());
    for d in dims {
        b.extend_from_slice(&d.to_le_bytes());
    }
    b.extend_from_slice(&dtype.to_le_bytes());
    b.extend_from_slice(&offset.to_le_bytes());
}

#[test]
fn parse_minimal_gguf() {
    let mut b = Vec::new();
    b.extend_from_slice(b"GGUF");
    b.extend_from_slice(&3u32.to_le_bytes()); // version
    b.extend_from_slice(&1u64.to_le_bytes()); // n_tensors
    b.extend_from_slice(&1u64.to_le_bytes()); // n_meta

    // metadata: "qwen3.block_count" = u32 28
    gstr(&mut b, "qwen3.block_count");
    b.extend_from_slice(&4u32.to_le_bytes()); // type 4 = u32
    b.extend_from_slice(&28u32.to_le_bytes());

    // tensor info: "output_norm.weight", 1 dim [4], dtype 0 (F32), offset 0
    gstr(&mut b, "output_norm.weight");
    b.extend_from_slice(&1u32.to_le_bytes()); // n_dims
    b.extend_from_slice(&4u64.to_le_bytes()); // dims[0]
    b.extend_from_slice(&0u32.to_le_bytes()); // dtype F32
    b.extend_from_slice(&0u64.to_le_bytes()); // offset

    // pad to 32-byte alignment, then tensor data [1,2,3,4]
    while b.len() % 32 != 0 {
        b.push(0);
    }
    for v in [1.0f32, 2.0, 3.0, 4.0] {
        b.extend_from_slice(&v.to_le_bytes());
    }

    assert!(GgufWeights::readable(&b));
    let w = GgufWeights::parse(b).unwrap();
    assert_eq!(w.meta_u32("qwen3.block_count"), 28);
    assert_eq!(floats(&w.tensor_f32("output_norm.weight").unwrap()), vec![1.0, 2.0, 3.0, 4.0]);
    assert!(w.has("output_norm.weight"));
}

#[test]
fn not_gguf_is_an_error() {
    let mut b = header(0, 0);
    b[0] = b'X';
    assert!(GgufWeights::readable(&b));
    assert_eq!(GgufWeights::parse(b).err().unwrap(), "not a GGUF file");
}

#[test]
fn truncated_input_is_not_readable() {
    assert!(!GgufWeights::readable(b"GG"));
    assert!(!GgufWeights::readable(&header(0, 0)[..20]));
    // a metadata count with no entries behind it
    assert!(!GgufWeights::readable(&header(0, 1)));
    // a string length running past the end
    let mut b = header(0, 1);
    b.extend_from_slice(&100u64.to_le_bytes());
    b.extend_from_slice(b"abc");
    assert!(!GgufWeights::readable(&b));
    // the data section starts at the 32-byte boundary, which must exist
    assert!(!GgufWeights::readable(&header(0, 0)));
    assert!(GgufWeights::readable(&pad32(header(0, 0))));
}

#[test]
fn metadata_kinds() {
    let mut b = header(0, 7);
    gstr(&mut b, "a.i8");
    b.extend_from_slice(&1u32.to_le_bytes());
    b.push(0xfe); // -2
    gstr(&mut b, "a.f32");
    b.extend_from_slice(&6u32.to_le_bytes());
    b.extend_from_slice(&1e-6f32.to_le_bytes());
    gstr(&mut b, "a.name");
    b.extend_from_slice(&8u32.to_le_bytes());
    gstr(&mut b, "qwen3");
    gstr(&mut b, "a.tokens");
    b.extend_from_slice(&9u32.to_le_bytes()); // array
    b.extend_from_slice(&8u32.to_le_bytes()); // of strings
    b.extend_from_slice(&2u64.to_le_bytes());
    gstr(&mut b, "x");
    gstr(&mut b, "yz");
    gstr(&mut b, "a.f64");
    b.extend_from_slice(&12u32.to_le_bytes());
    b.extend_from_slice(&1.0e6f64.to_le_bytes());
    gstr(&mut b, "a.i16");
    b.extend_from_slice(&3u32.to_le_bytes());
    b.extend_from_slice(&(-300i16).to_le_bytes());
    gstr(&mut b, "a.f32");
    b.extend_from_slice(&6u32.to_le_bytes());
    b.extend_from_slice(&42.9f32.to_le_bytes());
    let b = pad32(b);
    assert!(GgufWeights::readable(&b));
    let w = GgufWeights::parse(b).unwrap();
    match w.meta("a.i8") {
        Some(Meta::U(v)) => assert_eq!(*v, (-2i64) as u64),
        other => panic!("{other:?}"),
    }
    match w.meta("a.name") {
        Some(Meta::Str(s)) => assert_eq!(s, "qwen3"),
        other => panic!("{other:?}"),
    }
    assert!(matches!(w.meta("a.tokens"), Some(Meta::Other)));
    assert_eq!(w.meta_u32("a.f64"), 1_000_000);
    assert_eq!(w.meta_u32("a.i16"), (-300i32) as u32);
    // the later of two equal keys wins
    assert_eq!(w.meta_u32("a.f32"), 42);
    assert_eq!(w.meta_u32("missing"), 0);
    assert!(w.meta("missing").is_none());
}

#[test]
fn custom_alignment_and_dtypes() {
    let mut b = header(4, 1);
    gstr(&mut b, "general.alignment");
    b.extend_from_slice(&4u32.to_le_bytes());
    b.extend_from_slice(&64u32.to_le_bytes());
    tensor_info(&mut b, "h", &[2], 1, 0); // F16
    tensor_info(&mut b, "q", &[32], 8, 4); // Q8_0
    tensor_info(&mut b, "k", &[256], 12, 0); // Q4_K: unsupported
    tensor_info(&mut b, "big", &[1000], 0, 0); // runs past the data
    while b.len() % 64 != 0 {
        b.push(0);
    }
    let start = b.len();
    b.extend_from_slice(&[0x00, 0x3c, 0x00, 0xc0]); // f16 1.0, -2.0
    b.extend_from_slice(&[0x00, 0x38]); // q8 scale 0.5
    for j in 0..32u8 {
        b.push(j);
    }
    let w = GgufWeights::parse(b.clone()).unwrap();
    assert_eq!(floats(&w.tensor_f32("h").unwrap()), vec![1.0, -2.0]);
    assert_eq!(floats(&w.tensor_f32("q").unwrap())[3], 1.5);
    assert_eq!(w.tensor_f32("k"), Err(TensorError::UnsupportedDtype(12)));
    assert_eq!(w.tensor_f32("big"), Err(TensorError::Truncated));
    assert_eq!(w.tensor_f32("nope"), Err(TensorError::Missing));
    assert!(!w.has("nope"));
    assert_eq!(start % 64, 0);
}

#[test]
fn zero_alignment_is_not_readable() {
    let mut b = header(0, 1);
    gstr(&mut b, "general.alignment");
    b.extend_from_slice(&4u32.to_le_bytes());
    b.extend_from_slice(&0u32.to_le_bytes());
    assert!(!GgufWeights::readable(&b));
}

#[test]
fn overflowing_element_count_is_not_readable() {
    let mut b = header(1, 0);
    tensor_info(&mut b, "t", &[u64::MAX, 2], 0, 0);
    assert!(!GgufWeights::readable(&b));
}

#[test]
fn tensor_error_texts() {

    assert_eq!(TensorError::Missing.message("output.weight"), "missing tensor output.weight");
    assert_eq!(
        TensorError::UnsupportedDtype(12).message("blk.0.ffn_up.weight"),
        "tensor blk.0.ffn_up.weight: ggml dtype 12 not supported yet (k-quants todo)"
    );
    assert_eq!(
        TensorError::UnsupportedFormat("I64".to_string()).message("x"),
        "tensor x: safetensors dtype I64 not supported"
    );
}

#[test]
fn q4_1_and_q6_k_tensors() {
    let mut b = header(2, 0);
    tensor_info(&mut b, "a", &[32], 3, 0); // Q4_1: one block of 20 bytes
    tensor_info(&mut b, "b", &[256], 14, 32); // Q6_K: one super-block of 210 bytes
    let mut b = pad32(b);
    // Q4_1: d = 1.0, m = -1.0, every nibble 3 -> 3·1 - 1 = 2
    b.extend_from_slice(&[0x00, 0x3c, 0x00, 0xbc]);
    b.extend_from_slice(&[0x33; 16]);
    b.extend_from_slice(&[0; 12]); // up to offset 32
    // Q6_K: every quant 33 (low nibble 1, high bits 2), every scale 2, d = 0.5
    b.extend_from_slice(&[0x11; 128]);
    b.extend_from_slice(&[0xaa; 64]);
    b.extend_from_slice(&[2; 16]);
    b.extend_from_slice(&[0x00, 0x38]);
    let w = GgufWeights::parse(b).unwrap();
    assert_eq!(floats(&w.tensor_f32("a").unwrap()), vec![2.0; 32]);
    // (33 - 32) · 2 · 0.5 = 1
    assert_eq!(floats(&w.tensor_f32("b").unwrap()), vec![1.0; 256]);
}
