//! chat-wgpu: the host-side logic of a WebGPU LLM inference engine.
//!
//! The library holds what the engine decides and computes on the host: the
//! decoder-layer block vocabulary and its fusion pass (`arch`), the model
//! families assembled from it (`families`), the GGUF and Safetensors weight
//! containers and the dequantizers (`loader`), the launch parameters of every
//! GPU kernel and the q4 packing (`kernels`), the weight-layout transforms a
//! model applies at load time (`layout`), the Qwen3 load plan and the KV-cache
//! geometry (`model`), the chat turn around a model — prompt frame, stopping
//! rule, streamed detokenization (`chat`) — the GPU profiler's bookkeeping
//! (`profile`), and a deterministic random weight source (`random`). GPU
//! execution itself lives in the application.

pub mod arch;
pub mod chat;
pub mod families;
pub mod floatbits;
pub mod kernels;
pub mod layout;
pub mod loader;
pub mod model;
pub mod profile;
pub mod random;
pub mod text;
