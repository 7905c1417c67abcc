//! Device-program generation.
pub mod amd_target;
pub mod args;
pub mod arith;
pub mod arm_laws;
pub mod arms;
pub mod attention;
pub mod backends;
pub mod builder;
pub mod cache_laws;
pub mod chain_laws;
pub mod chains;
pub mod check_laws;
pub mod choice_laws;
pub mod config;
pub mod config_header;
pub mod declare;
pub mod declare_laws;
pub mod define_laws;
pub mod dense;
pub mod dense_phase;
pub mod document_laws;
pub mod emit_config;
pub mod expert_parallel;
pub mod features;
pub mod ffn_laws;
pub mod fine_map;
pub mod finish;
pub mod fits;
pub mod flash;
pub mod fusion;
pub mod gate;
pub mod gemm;
pub mod head_laws;
pub mod header_laws;
pub mod inventory;
pub mod isa;
pub mod json;
pub mod knobs;
pub mod ladder;
pub mod manifest;
pub mod manifest_laws;
pub mod measure_laws;
pub mod mixed_step_emit;
pub mod mlp;
pub mod model_laws;
pub mod name_laws;
pub mod object_laws;
pub mod opcodes;
pub mod order;
pub mod packet_laws;
pub mod packet_shape;
pub mod pairing;
pub mod phase;
pub mod phase_laws;
pub mod plan_laws;
pub mod pricing;
pub mod production;
pub mod products;
pub mod program_laws;
pub mod refusals;
pub mod room_laws;
pub mod route;
pub mod router;
pub mod setting_laws;
pub mod shape;
pub mod shape_laws;
pub mod stage_laws;
pub mod step_laws;
pub mod steps;
pub mod target;
pub mod tensors;
pub mod text;
pub mod tune;
pub mod unit_laws;
pub mod wait_laws;
pub mod xreduce;
