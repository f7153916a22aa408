# chat_wgpu

The host side of a WebGPU LLM inference engine (Qwen3 and related decoder
families, GGUF or Safetensors weights, an HF tokenizer), written in Verus.

- `src/` is the verified library: the decoder-block vocabulary and its fusion
  pass, the model families, the GGUF and Safetensors containers (the
  Safetensors header read with serde_json) and their dequantizers (F32, F16,
  BF16, Q8_0, Q4_0, Q4_1, Q6_K), the launch parameters of every WGSL kernel
  and the q4 packing, the load-time weight layouts, the Qwen3 load plan and
  KV-cache geometry, the chat turn (ChatML frame, end-of-turn ids, stopping
  rule, streamed detokenization), the GPU profiler's slot bookkeeping, and a
  deterministic random weight source.
- `tests/` runs the library on concrete inputs.
- `app/` is the GPU side in plain Rust: the wgpu context, kernel dispatch,
  the Qwen3 forward pass, the weight sources, the timestamp profiler and the
  browser `LocalChat` API, which loads the tokenizer and decodes ids. Its
  `main` runs known-answer checks of every kernel and a Qwen3 decode on random
  weights.

The WGSL kernel sources are not part of this crate; the application reads them
at run time from `shaders/` (or the directory named by `CHAT_WGPU_SHADERS`).
