//! Verified core of a WGSL shader studio: node-graph compilation to WGSL,
//! shader-language conversion, shader file classification, shader modules
//! and their dependencies, bytecode caching, budgets and a feature survey.
pub mod text;
pub mod decimal;
pub mod node_graph;
pub mod graph_analysis;
pub mod codegen;
pub mod visual_language_compiler;
pub mod wgsl_reader;
pub mod visual_language_parser;
pub mod visual_language_bridge;
pub mod visual_language_integration;
pub mod shader_converter;
pub mod shader_transpiler;
pub mod shader_browser;
pub mod module_cache;
pub mod shader_module_system;
pub mod ui_analyzer;
pub mod parameter_panel;
pub mod ui_auditor_minimal;
pub mod ui_auditor;
pub mod simple_ui_auditor;
pub mod spout_syphon_output;
pub mod screenshot_video_export;
pub mod superinstance;
