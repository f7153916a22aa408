use chat_wgpu::loader::safetensors::{config_key, header_len, to_hf, Json, SafetensorsWeights};
use chat_wgpu::loader::TensorError;

fn s(x: &str) -> String {
    x.to_string()
}

fn obj(members: Vec<(&str, Json)>) -> Json {
    Json::Object(members.into_iter().map(|(k, v)| (s(k), v)).collect())
}

fn entry(dtype: &str, shape: &[u64], start: u64, end: u64) -> Json {
    obj(vec![
        ("data_offsets", Json::Array(vec![Json::PosInt(start), Json::PosInt(end)])),
        ("dtype", Json::Str(s(dtype))),
        ("shape", Json::Array(shape.iter().map(|&d| Json::PosInt(d)).collect())),
    ])
}

/// A parsed JSON value in the library's form, object members in order.
fn json(v: &serde_json::Value) -> Json {
    match v {
        serde_json::Value::Null => Json::Null,
        serde_json::Value::Bool(b) => Json::Bool(*b),
        serde_json::Value::Number(n) => match (n.as_u64(), n.as_i64()) {
            (Some(u), _) => Json::PosInt(u),
            (None, Some(i)) => Json::NegInt(i),
            _ => Json::Float(n.as_f64().unwrap_or(0.0).to_bits()),
        },
        serde_json::Value::String(x) => Json::Str(x.clone()),
        serde_json::Value::Array(a) => Json::Array(a.iter().map(json).collect()),
        serde_json::Value::Object(o) => Json::Object(o.iter().map(|(k, v)| (k.clone(), json(v))).collect()),
    }
}

fn file(header: &str, data: &[u8]) -> Vec<u8> {
    let mut bytes = (header.len() as u64).to_le_bytes().to_vec();
    bytes.extend_from_slice(header.as_bytes());
    bytes.extend_from_slice(data);
    bytes
}

#[test]
fn name_mapping() {
    assert_eq!(to_hf("blk.0.attn_q.weight"), "model.layers.0.self_attn.q_proj.weight");
    assert_eq!(to_hf("blk.3.attn_q_norm.weight"), "model.layers.3.self_attn.q_norm.weight");
    assert_eq!(to_hf("blk.7.ffn_gate.weight"), "model.layers.7.mlp.gate_proj.weight");
    assert_eq!(to_hf("output_norm.weight"), "model.norm.weight");
    assert_eq!(to_hf("token_embd.weight"), "model.embed_tokens.weight");
}

#[test]
fn name_mapping_more() {
    assert_eq!(to_hf("blk.12.attn_k.bias"), "model.layers.12.self_attn.k_proj.bias");
    assert_eq!(to_hf("blk.1.ffn_norm.weight"), "model.layers.1.post_attention_layernorm.weight");
    assert_eq!(to_hf("blk.2.attn_output.weight"), "model.layers.2.self_attn.o_proj.weight");
    assert_eq!(to_hf("blk.2.ffn_down.weight"), "model.layers.2.mlp.down_proj.weight");
    assert_eq!(to_hf("output.weight"), "lm_head.weight");
    assert_eq!(to_hf("blk.4.something_else"), "model.layers.4.something_else");
    assert_eq!(to_hf("blk.9"), "model.layers.9.");
    assert_eq!(to_hf("rope_freqs"), "rope_freqs");
}

#[test]
fn config_keys() {
    assert_eq!(config_key("qwen3.block_count"), "num_hidden_layers");
    assert_eq!(config_key("llama.attention.head_count"), "num_attention_heads");
    assert_eq!(config_key("llama.attention.head_count_kv"), "num_key_value_heads");
    assert_eq!(config_key("qwen3.rope.freq_base"), "rope_theta");
    assert_eq!(config_key("qwen3.attention.layer_norm_rms_epsilon"), "rms_norm_eps");
    assert_eq!(config_key("block_count"), "num_hidden_layers");
    assert_eq!(config_key("qwen3.vocab_size"), "");
}

#[test]
fn parse_and_read_f32() {
    // one F32 tensor "model.norm.weight" = [1,2,3,4]
    let vals = [1.0f32, 2.0, 3.0, 4.0];
    let mut data = Vec::new();
    for v in vals {
        data.extend_from_slice(&v.to_le_bytes());
    }
    let header_text = r#"{"model.norm.weight":{"dtype":"F32","shape":[4],"data_offsets":[0,16]}}"#;
    let bytes = file(header_text, &data);
    assert_eq!(header_len(&bytes), header_text.len());
    let config: serde_json::Value = serde_json::from_str(r#"{"num_hidden_layers": 28}"#).unwrap();

    let w = SafetensorsWeights::parse(bytes, json(&config)).unwrap();
    let got: Vec<f32> = w.tensor_f32("model.norm.weight").unwrap().iter().map(|&b| f32::from_bits(b)).collect();
    assert_eq!(got, vals);
    assert_eq!(w.meta_u32("qwen3.block_count"), 28);
    assert!(w.has("output_norm.weight")); // maps to model.norm.weight
}

#[test]
fn header_errors() {
    let bytes = file("[]", &[]);
    let not_object = Json::Array(vec![]);
    assert!(SafetensorsWeights::header_readable(&not_object));
    assert_eq!(
        SafetensorsWeights::from_header(bytes.clone(), &not_object, Json::Null).err().unwrap(),
        "safetensors header not an object"
    );
    let missing = obj(vec![("t", obj(vec![("dtype", Json::Str(s("F32")))]))]);
    assert_eq!(
        SafetensorsWeights::from_header(bytes.clone(), &missing, Json::Null).err().unwrap(),
        "missing data_offsets"
    );
    // data_offsets that are not integers: the reader cannot go on
    let bad = obj(vec![("t", obj(vec![("data_offsets", Json::Array(vec![Json::Null]))]))]);
    assert!(!SafetensorsWeights::header_readable(&bad));
}

#[test]
fn dtypes_metadata_and_ranges() {
    let header = obj(vec![
        ("__metadata__", obj(vec![("format", Json::Str(s("pt")))])),
        ("a", entry("F16", &[2], 0, 4)),
        ("b", entry("BF16", &[1, 2], 4, 8)),
        ("c", entry("I64", &[1], 8, 16)),
        ("d", entry("F32", &[8], 8, 40)),
        ("e", entry("F32", &[], 0, 4)),
    ]);
    let data = [0x00, 0x3c, 0x00, 0xc0, 0x80, 0x3f, 0x00, 0xc0, 0, 0, 0, 0, 0, 0, 0, 0];
    let w = SafetensorsWeights::from_header(file("{}", &data), &header, Json::Null).unwrap();
    let fl = |v: Vec<u32>| v.iter().map(|&b| f32::from_bits(b)).collect::<Vec<_>>();
    assert_eq!(fl(w.tensor_f32("a").unwrap()), vec![1.0, -2.0]);
    assert_eq!(fl(w.tensor_f32("b").unwrap()), vec![1.0, -2.0]);
    assert_eq!(w.tensor_f32("c"), Err(TensorError::UnsupportedFormat(s("I64"))));
    assert_eq!(w.tensor_f32("d"), Err(TensorError::Truncated));
    assert_eq!(fl(w.tensor_f32("e").unwrap()), vec![f32::from_bits(0xc000_3c00)]); // empty shape: one element
    assert_eq!(w.tensor_f32("__metadata__"), Err(TensorError::Missing));
    assert_eq!(w.meta_u32("qwen3.block_count"), 0);
}

#[test]
fn parse_reports_header_errors() {
    let data = [0u8; 4];
    let not_json = file("{nope", &data);
    assert!(SafetensorsWeights::parse(not_json, Json::Null).is_err());
    let not_object = file("[1,2]", &data);
    assert_eq!(SafetensorsWeights::parse(not_object, Json::Null).err(), Some(s("safetensors header not an object")));
    let no_offsets = file(r#"{"t":{"dtype":"F32","shape":[1]}}"#, &data);
    assert_eq!(SafetensorsWeights::parse(no_offsets, Json::Null).err(), Some(s("missing data_offsets")));
    let bad_offsets = file(r#"{"t":{"dtype":"F32","shape":[1],"data_offsets":[0]}}"#, &data);
    assert_eq!(SafetensorsWeights::parse(bad_offsets, Json::Null).err(), Some(s("malformed data_offsets or shape")));
    let meta_only = file(r#"{"__metadata__":{"format":"pt"}}"#, &data);
    let w = SafetensorsWeights::parse(meta_only, Json::Null).unwrap();
    assert_eq!(w.tensor_f32("__metadata__"), Err(TensorError::Missing));
}
