use shader_studio::superinstance::flux_integration::{
    bincode_deserialize, bincode_serialize, generate_bytecode, register_counts_fit_exec, FluxBytecode,
    FluxCompiler,
};

#[test]
fn test_flux_compiler_disabled() {
    let mut compiler = FluxCompiler::new();
    assert!(!compiler.is_enabled());
    let result = compiler.compile_to_bytecode("test");
    assert!(result.is_err());
    assert!(result.unwrap_err().contains("not enabled"));
}

#[test]
fn test_flux_compiler_enabled() {
    let compiler = FluxCompiler::with_cache_dir(".flux-test-cache".to_string());
    assert!(compiler.is_enabled());
}

#[test]
fn test_generate_bytecode_fragment() {
    let mut compiler = FluxCompiler::with_cache_dir(".flux-test-cache".to_string());
    let shader = "@fragment\nfn main() -> @location(0) vec4<f32> { return vec4(1.0); }";
    let bytecode = compiler.compile_to_bytecode(shader).unwrap();
    assert!(!bytecode.instructions.is_empty());
    assert!(bytecode.budget_cost > 0);
}

#[test]
fn test_generate_bytecode_compute() {
    let mut compiler = FluxCompiler::with_cache_dir(".flux-test-cache".to_string());
    let shader = "@compute @workgroup_size(64)\nfn main() {}";
    let bytecode = compiler.compile_to_bytecode(shader).unwrap();
    assert!(bytecode.register_map.iter().any(|(name, _)| name == "compute_entry"));
}

#[test]
fn test_bytecode_caching() {
    let mut compiler = FluxCompiler::with_cache_dir(".flux-test-cache".to_string());
    let shader = "@fragment\nfn main() -> @location(0) vec4<f32> { return vec4(1.0); }";
    let first = compiler.compile_to_bytecode(shader).unwrap();
    let second = compiler.compile_to_bytecode(shader).unwrap();
    assert_eq!(first.instructions, second.instructions);
    assert_eq!(compiler.cache_stats().entries, 1);
}

#[test]
fn test_execute_valid_bytecode() {
    let mut compiler = FluxCompiler::with_cache_dir(".flux-test-cache".to_string());
    let shader = "@vertex\nfn main() -> @builtin(position) vec4<f32> { return vec4(0.0); }";
    let bytecode = compiler.compile_to_bytecode(shader).unwrap();
    let result = compiler.execute(&bytecode);
    assert!(result.is_ok());
}

#[test]
fn test_execute_empty_bytecode() {
    let compiler = FluxCompiler::new();
    let bytecode = FluxBytecode {
        instructions: vec![],
        register_map: vec![],
        gp_registers: 0,
        fp_registers: 0,
        budget_cost: 0,
    };
    let result = compiler.execute(&bytecode);
    assert!(result.is_err());
}

#[test]
fn test_serialize_roundtrip() {
    let bytecode = FluxBytecode {
        instructions: vec![0x01, 0x10, 0x02],
        register_map: vec![("vertex_entry".to_string(), 0)],
        gp_registers: 4,
        fp_registers: 4,
        budget_cost: 100_000,
    };

    let serialized = bincode_serialize(&bytecode).unwrap();
    let deserialized = bincode_deserialize(&serialized).unwrap();

    assert_eq!(bytecode.instructions, deserialized.instructions);
    assert_eq!(bytecode.gp_registers, deserialized.gp_registers);
    assert_eq!(bytecode.fp_registers, deserialized.fp_registers);
    assert_eq!(bytecode.register_map, deserialized.register_map);
}

#[test]
fn test_cache_stats() {
    let compiler = FluxCompiler::with_cache_dir(".flux-test-cache".to_string());
    let stats = compiler.cache_stats();
    assert!(stats.enabled);
    assert_eq!(stats.cache_dir, ".flux-test-cache");
}

#[test]
fn generated_program_for_all_stages() {
    let b = generate_bytecode(
        "@vertex fn v() {}\n@fragment fn f() {}\n@group(0) @binding(0) var<uniform> u: f32;\n@group(0) @binding(1) var<uniform> w: f32;",
    );
    assert_eq!(b.instructions, vec![0x01, 0x10, 0x02, 0x01, 0x03, 0x02]);
    assert_eq!(b.gp_registers, 8);
    assert_eq!(b.fp_registers, 8);
    assert_eq!(b.budget_cost, 600);
    assert_eq!(
        b.register_map,
        vec![("vertex_entry".to_string(), 0), ("fragment_entry".to_string(), 1)]
    );
    let none = generate_bytecode("");
    assert!(none.instructions.is_empty());
    assert_eq!(none.budget_cost, 10);
    assert_eq!(none.gp_registers, 4);
    let many = generate_bytecode(&"@group".repeat(7));
    assert_eq!(many.gp_registers, 16);
}

#[test]
fn invalid_opcode_is_reported_with_position() {
    let compiler = FluxCompiler::new();
    let b = FluxBytecode {
        instructions: vec![0x01, 0x02, 0xab],
        register_map: vec![],
        gp_registers: 0,
        fp_registers: 0,
        budget_cost: 0,
    };
    assert_eq!(compiler.execute(&b).unwrap_err(), "Invalid opcode 0xab at position 2");
    let empty = FluxBytecode { instructions: vec![], ..b };
    assert_eq!(compiler.execute(&empty).unwrap_err(), "Empty bytecode program");
}

#[test]
fn serialized_layout_and_truncation_errors() {
    let b = FluxBytecode {
        instructions: vec![0x03],
        register_map: vec![("é".to_string(), 7)],
        gp_registers: 5,
        fp_registers: 6,
        budget_cost: 0x0102,
    };
    let bytes = bincode_serialize(&b).unwrap();
    assert_eq!(
        bytes,
        vec![1, 0, 0, 0, 3, 5, 6, 2, 1, 0, 0, 0, 0, 0, 0, 1, 0, 0, 0, 2, 0, 0, 0, 0xc3, 0xa9, 7]
    );
    let back = bincode_deserialize(&bytes).unwrap();
    assert_eq!(back.register_map, b.register_map);
    assert_eq!(back.budget_cost, 0x0102);
    assert_eq!(bincode_deserialize(&bytes[..3]).unwrap_err(), "Truncated data");
    assert_eq!(bincode_deserialize(&bytes[..4]).unwrap_err(), "Truncated instructions");
    assert_eq!(bincode_deserialize(&bytes[..6]).unwrap_err(), "Truncated register data");
    assert_eq!(bincode_deserialize(&bytes[..10]).unwrap_err(), "Truncated budget data");
    assert_eq!(bincode_deserialize(&bytes[..17]).unwrap_err(), "Truncated map length");
    assert_eq!(bincode_deserialize(&bytes[..20]).unwrap_err(), "Truncated map entry");
    assert_eq!(bincode_deserialize(&bytes[..25]).unwrap_err(), "Truncated map entry name");
    let mut bad = bytes.clone();
    bad[23] = 0xff;
    assert_eq!(bincode_deserialize(&bad).unwrap_err(), "Invalid UTF-8 in register map");
}

#[test]
fn duplicate_register_names_keep_the_last_binding() {
    let bytes = vec![
        0, 0, 0, 0, 0, 0, 0, 0, 0, 0, 0, 0, 0, 0, 2, 0, 0, 0, 1, 0, 0, 0, b'a', 1, 1, 0, 0, 0, b'a', 9,
    ];
    let b = bincode_deserialize(&bytes).unwrap();
    assert_eq!(b.register_map, vec![("a".to_string(), 9)]);
}

#[test]
fn cache_keys_follow_the_source_text() {
    let compiler = FluxCompiler::new();
    let a = compiler.source_key("@fragment fn a() {}");
    assert_eq!(a, compiler.source_key("@fragment fn a() {}"));
    assert_ne!(a, compiler.source_key("@fragment fn b() {}"));
}

#[test]
fn register_counts_fit_for_ordinary_sources() {
    assert!(register_counts_fit_exec("@group(0) var<uniform> x: f32;"));
    assert!(!register_counts_fit_exec(&"@group".repeat(126)));
    assert!(register_counts_fit_exec(&"@group".repeat(256)));
}

#[test]
fn compiling_twice_returns_the_cached_program() {
    let mut compiler = FluxCompiler::with_cache_dir(".cache".to_string());
    let first = compiler.compile_to_bytecode("@vertex fn v() {}").unwrap();
    let second = compiler.compile_to_bytecode("@vertex fn v() {}").unwrap();
    assert_eq!(first.instructions, second.instructions);
    assert_eq!(compiler.cache_stats().entries, 1);
    compiler.compile_to_bytecode("@fragment fn f() {}").unwrap();
    assert_eq!(compiler.cache_stats().entries, 2);
}

#[test]
fn enabling_a_compiler_lets_it_compile() {
    let mut compiler = FluxCompiler::new();
    assert!(compiler.compile_to_bytecode("@compute fn c() {}").is_err());
    compiler.set_enabled(true);
    assert!(compiler.is_enabled());
    let b = compiler.compile_to_bytecode("@compute fn c() {}").unwrap();
    assert_eq!(b.register_map.len(), 3);
    assert_eq!(compiler.cache_dir(), ".flux-cache");
}

#[test]
fn every_truncation_of_an_encoding_is_refused() {
    let b = FluxBytecode {
        instructions: vec![0x01, 0x10, 0x02],
        register_map: vec![("vertex_entry".to_string(), 0), ("uv".to_string(), 3)],
        gp_registers: 4,
        fp_registers: 4,
        budget_cost: 100,
    };
    let bytes = bincode_serialize(&b).unwrap();
    for k in 0..bytes.len() {
        assert!(bincode_deserialize(&bytes[..k]).is_err(), "prefix of length {} was accepted", k);
    }
    assert!(bincode_deserialize(&bytes).is_ok());
}
