use shader_studio::shader_module_system::{
    combined_source, BundleFormat, BundleLoader, ImportResolver, ModuleId, ModuleSystemError, ShaderModule,
    ShaderModuleSystem,
};

fn module_importing(imports: &[&str]) -> ShaderModule {
    ShaderModule {
        id: ModuleId("main".to_string()),
        name: "main".to_string(),
        source: String::new(),
        dependencies: vec![],
        exports: vec![],
        imports: imports.iter().map(|s| s.to_string()).collect(),
        version: 1,
    }
}

#[test]
fn imports_resolve_to_themselves_without_aliases() {
    let r = ImportResolver::new();
    let res = r.resolve_single_import("math").unwrap();
    assert_eq!(res.resolved_id, ModuleId("math".to_string()));
    assert_eq!(res.import_path, "math");
    assert_eq!(res.alias, None);
}

#[test]
fn aliases_redirect_imports_and_can_be_rebound() {
    let mut r = ImportResolver::new();
    r.register_alias("m".to_string(), ModuleId("math".to_string())).unwrap();
    r.register_alias("n".to_string(), ModuleId("noise".to_string())).unwrap();
    let all = r.resolve_imports(&module_importing(&["m", "n", "color"])).unwrap();
    let ids: Vec<String> = all.iter().map(|x| x.resolved_id.0.clone()).collect();
    assert_eq!(ids, vec!["math", "noise", "color"]);
    assert_eq!(all[0].import_path, "m");
    r.register_alias("m".to_string(), ModuleId("math2".to_string())).unwrap();
    assert_eq!(r.resolve_single_import("m").unwrap().resolved_id, ModuleId("math2".to_string()));
}

#[test]
fn a_module_without_imports_resolves_to_nothing() {
    let r = ImportResolver::new();
    assert!(r.resolve_imports(&module_importing(&[])).unwrap().is_empty());
}

#[test]
fn bundle_formats_follow_the_extension() {
    let l = BundleLoader::new();
    assert_eq!(l.bundle_format("json").unwrap(), BundleFormat::Json);
    assert_eq!(l.bundle_format("toml").unwrap(), BundleFormat::Toml);
    assert_eq!(l.bundle_format("yaml").unwrap(), BundleFormat::Yaml);
    assert_eq!(l.bundle_format("yml").unwrap(), BundleFormat::Yaml);
    match l.bundle_format("xml") {
        Err(ModuleSystemError::IoError(m)) => assert_eq!(m, "Unsupported bundle format"),
        other => panic!("unexpected {:?}", other),
    }
}

fn strings(v: &[&str]) -> Vec<String> {
    v.iter().map(|s| s.to_string()).collect()
}

fn id(s: &str) -> ModuleId {
    ModuleId(s.to_string())
}

#[test]
fn loading_registers_and_caches_a_module() {
    let mut system = ShaderModuleSystem::new(100, 300_000);
    let m = system
        .load_module(id("test"), "fn vs_main() {}".to_string(), strings(&["vs_main", "VertexInput", "vs_main"]), vec![], 0)
        .unwrap();
    assert_eq!(m.name, "test");
    assert_eq!(m.exports, strings(&["vs_main", "VertexInput"]));
    assert_eq!(m.version, 1);
    let stats = system.get_cache_stats().unwrap();
    assert_eq!(stats.size, 1);
    assert_eq!(stats.capacity, 100);
    assert_eq!(system.get_module(&id("test"), 10).unwrap().source, "fn vs_main() {}");
    assert!(matches!(system.get_module(&id("other"), 10), Err(ModuleSystemError::ModuleNotFound(x)) if x.0 == "other"));
}

#[test]
fn dependencies_come_before_the_module() {
    let mut system = ShaderModuleSystem::new(100, 300_000);
    system.load_module(id("math"), "fn add() {}".to_string(), strings(&["add"]), vec![], 0).unwrap();
    system.load_module(id("main"), "fn main() {}".to_string(), strings(&["main"]), strings(&["math", "missing"]), 0).unwrap();
    let deps = system.resolve_dependencies(&id("main")).unwrap();
    let names: Vec<String> = deps.iter().map(|m| m.name.clone()).collect();
    assert_eq!(names, vec!["math", "main"]);
}

#[test]
fn shared_dependencies_are_listed_once() {
    let mut system = ShaderModuleSystem::new(100, 300_000);
    system.load_module(id("base"), String::new(), vec![], vec![], 0).unwrap();
    system.load_module(id("left"), String::new(), vec![], strings(&["base"]), 0).unwrap();
    system.load_module(id("right"), String::new(), vec![], strings(&["base"]), 0).unwrap();
    system.load_module(id("top"), String::new(), vec![], strings(&["left", "right"]), 0).unwrap();
    let deps = system.resolve_dependencies(&id("top")).unwrap();
    let names: Vec<String> = deps.iter().map(|m| m.name.clone()).collect();
    assert_eq!(names, vec!["base", "left", "right", "top"]);
}

#[test]
fn circular_dependencies_are_reported() {
    let mut system = ShaderModuleSystem::new(100, 300_000);
    system.load_module(id("module_a"), String::new(), vec![], strings(&["module_b"]), 0).unwrap();
    system.load_module(id("module_b"), String::new(), vec![], strings(&["module_a"]), 0).unwrap();
    match system.resolve_dependencies(&id("module_a")) {
        Err(ModuleSystemError::CircularDependency(chain)) => {
            assert_eq!(chain, vec![id("module_a"), id("module_b")]);
        },
        other => panic!("unexpected {:?}", other.map(|v| v.len())),
    }
    assert!(matches!(system.resolve_dependencies(&id("none")), Err(ModuleSystemError::ModuleNotFound(_))));
}

#[test]
fn cache_records_expire() {
    let mut system = ShaderModuleSystem::new(10, 100);
    system.load_module(id("cache_test"), "fn test() -> f32 { return 1.0; }".to_string(), vec![], vec![], 0).unwrap();
    system.get_module(&id("cache_test"), 50).unwrap();
    assert_eq!(system.get_cache_stats().unwrap().size, 1);
    let m = system.get_module(&id("cache_test"), 200).unwrap();
    assert_eq!(m.source, "fn test() -> f32 { return 1.0; }");
    assert_eq!(system.get_cache_stats().unwrap().size, 0);
}

#[test]
fn a_fresh_cached_module_is_not_reloaded() {
    let mut system = ShaderModuleSystem::new(10, 100);
    system.load_module(id("m"), "old".to_string(), vec![], vec![], 0).unwrap();
    let again = system.load_module(id("m"), "new".to_string(), vec![], vec![], 10).unwrap();
    assert_eq!(again.source, "old");
    let later = system.load_module(id("m"), "new".to_string(), vec![], vec![], 500).unwrap();
    assert_eq!(later.source, "new");
    assert_eq!(system.get_module(&id("m"), 501).unwrap().source, "new");
}

#[test]
fn the_least_recently_used_record_is_evicted() {
    let mut system = ShaderModuleSystem::new(2, 1_000);
    system.load_module(id("a"), String::new(), vec![], vec![], 0).unwrap();
    system.load_module(id("b"), String::new(), vec![], vec![], 1).unwrap();
    system.get_module(&id("a"), 2).unwrap();
    system.load_module(id("c"), String::new(), vec![], vec![], 3).unwrap();
    assert_eq!(system.get_cache_stats().unwrap().size, 2);
    system.invalidate_cache(&id("a")).unwrap();
    assert_eq!(system.get_cache_stats().unwrap().size, 1);
    system.clear_cache().unwrap();
    assert_eq!(system.get_cache_stats().unwrap().size, 0);
    assert!(system.get_module(&id("b"), 4).is_ok());
}

#[test]
fn the_compiler_gets_dependencies_first() {
    let mut system = ShaderModuleSystem::new(100, 300_000);
    system.load_module(id("math"), "fn add() {}".to_string(), strings(&["add"]), vec![], 0).unwrap();
    system.load_module(id("main"), "fn main() {}".to_string(), strings(&["main"]), strings(&["math"]), 0).unwrap();
    let module = system.get_module(&id("main"), 1).unwrap();
    let deps = system.resolve_dependencies(&id("main")).unwrap();
    assert_eq!(combined_source(&module, &deps), "fn add() {}\nfn main() {}\nfn main() {}");
    assert_eq!(combined_source(&module, &vec![]), "fn main() {}");
}

const VERTEX_MODULE: &str = r#"
            struct VertexInput {
                @location(0) position: vec3<f32>,
                @location(1) uv: vec2<f32>,
            }

            @vertex
            fn vs_main(input: VertexInput) -> @builtin(position) vec4<f32> {
                return vec4<f32>(input.position, 1.0);
            }
        "#;

#[test]
fn test_module_loading() {
    let mut system = ShaderModuleSystem::new(100, 300_000);
    let result = system.load_module(
        id("test"),
        VERTEX_MODULE.to_string(),
        strings(&["VertexInput", "vs_main"]),
        vec![],
        0,
    );
    assert!(result.is_ok());
    let module = result.unwrap();
    assert_eq!(module.name, "test");
    assert!(module.exports.contains(&"vs_main".to_string()));
    assert!(module.exports.contains(&"VertexInput".to_string()));
}

#[test]
fn test_dependency_resolution() {
    let mut system = ShaderModuleSystem::new(100, 300_000);
    let math_module = r#"
            fn add(a: f32, b: f32) -> f32 {
                return a + b;
            }
        "#;
    let main_module = r#"
            import "math";
            
            @compute @workgroup_size(64)
            fn main() {
                let result = add(1.0, 2.0);
            }
        "#;
    system.load_module(id("math"), math_module.to_string(), strings(&["add"]), vec![], 0).unwrap();
    system.load_module(id("main"), main_module.to_string(), strings(&["main"]), strings(&["math"]), 0).unwrap();
    let result = system.resolve_dependencies(&id("main"));
    assert!(result.is_ok());
    let deps = result.unwrap();
    assert_eq!(deps.len(), 2);
}

#[test]
fn test_circular_dependency_detection() {
    let mut system = ShaderModuleSystem::new(100, 300_000);
    let module_a = r#"
            import "module_b";
            fn func_a() -> f32 { return 1.0; }
        "#;
    let module_b = r#"
            import "module_a";
            fn func_b() -> f32 { return 2.0; }
        "#;
    system.load_module(id("module_a"), module_a.to_string(), strings(&["func_a"]), strings(&["module_b"]), 0).unwrap();
    system.load_module(id("module_b"), module_b.to_string(), strings(&["func_b"]), strings(&["module_a"]), 0).unwrap();
    let result = system.resolve_dependencies(&id("module_a"));
    assert!(matches!(result, Err(ModuleSystemError::CircularDependency(_))));
}
