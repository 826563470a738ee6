use shader_studio::shader_browser::{
    keep_category, sort_files, ScannedFile, ShaderBrowser, ShaderCategory, ShaderFile, SortBy,
};

fn file(name: &str, category: ShaderCategory, size: u64, modified: u64) -> ShaderFile {
    let ext = match category {
        ShaderCategory::WGSL => "wgsl",
        ShaderCategory::ISF => "isf",
        ShaderCategory::GLSL => "glsl",
        ShaderCategory::HLSL => "hlsl",
        ShaderCategory::Custom => "custom",
        ShaderCategory::Unknown => "unknown",
    };
    ShaderFile {
        path: format!("shaders/{}.{}", name, ext),
        name: name.to_string(),
        extension: ext.to_string(),
        size,
        modified,
        category,
        tags: vec![],
    }
}

fn names(files: &[ShaderFile]) -> Vec<String> {
    files.iter().map(|f| f.name.clone()).collect()
}

#[test]
fn new_browser_defaults() {
    let b = ShaderBrowser::new();
    assert_eq!(b.scan_paths, vec!["./shaders", "./examples", "./projects"]);
    assert!(b.recent_files.is_empty());
    assert!(b.projects.is_empty());
    assert_eq!(b.sort_by, SortBy::Name);
    assert_eq!(b.filter_category, None);
}

#[test]
fn analyze_classifies_by_lower_case_extension() {
    let b = ShaderBrowser::new();
    let f = b.analyze_shader_file("shaders/Noise_gradient.WGSL", 120, 7).unwrap();
    assert_eq!(f.name, "Noise_gradient");
    assert_eq!(f.extension, "wgsl");
    assert_eq!(f.category, ShaderCategory::WGSL);
    assert_eq!(f.tags, vec!["gradient".to_string()]);
    assert_eq!(f.size, 120);
    assert_eq!(f.modified, 7);
    assert_eq!(f.path, "shaders/Noise_gradient.WGSL");
    let g = b.analyze_shader_file("x/fractal_noise.hlsl", 1, 2).unwrap();
    assert_eq!(g.category, ShaderCategory::HLSL);
    assert_eq!(g.tags, vec!["noise".to_string(), "fractal".to_string()]);
}

#[test]
fn analyze_refuses_other_files() {
    let b = ShaderBrowser::new();
    assert!(b.analyze_shader_file("notes/readme.txt", 1, 1).is_none());
    assert!(b.analyze_shader_file("shaders/noext", 1, 1).is_none());
}

#[test]
fn recent_files_keep_the_last_twenty_distinct_paths() {
    let mut b = ShaderBrowser::new();
    for i in 0..21 {
        b.note_recent_file(&format!("s/{}.wgsl", i));
    }
    assert_eq!(b.recent_files.len(), 20);
    assert_eq!(b.recent_files[0], "s/1.wgsl");
    assert_eq!(b.recent_files[19], "s/20.wgsl");
    b.note_recent_file("s/5.wgsl");
    assert_eq!(b.recent_files.len(), 20);
    assert_eq!(b.recent_files[0], "s/1.wgsl");
}

#[test]
fn scan_remembers_only_shader_files() {
    let mut b = ShaderBrowser::new();
    let found = vec![
        ScannedFile { path: "a/one.wgsl".to_string(), size: 1, modified: 1 },
        ScannedFile { path: "a/readme.md".to_string(), size: 1, modified: 1 },
        ScannedFile { path: "a/two.glsl".to_string(), size: 1, modified: 1 },
        ScannedFile { path: "a/one.wgsl".to_string(), size: 1, modified: 1 },
    ];
    b.scan_directories(&found);
    assert_eq!(b.recent_files, vec!["a/one.wgsl", "a/two.glsl"]);
}

#[test]
fn search_matches_name_tag_and_category_ignoring_case() {
    let b = ShaderBrowser::new();
    let mut tagged = file("Plasma", ShaderCategory::GLSL, 1, 1);
    tagged.tags = vec!["Gradient".to_string()];
    let files = vec![
        file("NoiseField", ShaderCategory::WGSL, 1, 1),
        tagged,
        file("Waves", ShaderCategory::HLSL, 1, 1),
    ];
    assert_eq!(names(&b.search_shaders("NOISE", &files)), vec!["NoiseField"]);
    assert_eq!(names(&b.search_shaders("grad", &files)), vec!["Plasma"]);
    assert_eq!(names(&b.search_shaders("HLSL", &files)), vec!["Waves"]);
    assert!(b.search_shaders("missing", &files).is_empty());
}

#[test]
fn sorting_is_stable_and_follows_the_key() {
    let files = vec![
        file("b", ShaderCategory::WGSL, 10, 3),
        file("a", ShaderCategory::ISF, 30, 1),
        file("c", ShaderCategory::GLSL, 10, 3),
        file("a", ShaderCategory::HLSL, 20, 2),
    ];
    let by_name = sort_files(files.clone(), SortBy::Name);
    assert_eq!(names(&by_name), vec!["a", "a", "b", "c"]);
    assert_eq!(by_name[0].category, ShaderCategory::ISF);
    assert_eq!(by_name[1].category, ShaderCategory::HLSL);
    assert_eq!(names(&sort_files(files.clone(), SortBy::Date)), vec!["b", "c", "a", "a"]);
    assert_eq!(names(&sort_files(files.clone(), SortBy::Size)), vec!["a", "a", "b", "c"]);
    let by_category: Vec<ShaderCategory> =
        sort_files(files.clone(), SortBy::Category).iter().map(|f| f.category).collect();
    assert_eq!(
        by_category,
        vec![ShaderCategory::GLSL, ShaderCategory::HLSL, ShaderCategory::ISF, ShaderCategory::WGSL]
    );
    assert_eq!(names(&keep_category(&files, ShaderCategory::HLSL)), vec!["a"]);
}

#[test]
fn filtered_list_searches_filters_then_sorts() {
    let mut b = ShaderBrowser::new();
    let files = vec![
        file("noise_b", ShaderCategory::WGSL, 1, 5),
        file("noise_a", ShaderCategory::GLSL, 1, 9),
        file("plain", ShaderCategory::WGSL, 1, 7),
        file("noise_c", ShaderCategory::WGSL, 1, 8),
    ];
    assert_eq!(names(&b.get_filtered_shaders(&files)), vec!["noise_a", "noise_b", "noise_c", "plain"]);
    b.search_query = "Noise".to_string();
    b.filter_category = Some(ShaderCategory::WGSL);
    b.sort_by = SortBy::Date;
    assert_eq!(names(&b.get_filtered_shaders(&files)), vec!["noise_c", "noise_b"]);
}

#[test]
fn isf_import_keeps_the_main_body() {
    let b = ShaderBrowser::new();
    let isf = "/*{}*/\nvoid main() {\n    gl_FragColor = vec4(isf_FragNormCoord, gl_FragCoord.x, 1.0);\n}\n";
    let expected = "struct Uniforms {\n    time: f32,\n    resolution: vec2<f32>,\n    mouse: vec2<f32>,\n};\n\n@group(0) @binding(0)\nvar<uniform> uniforms: Uniforms;\n\n@fragment\nfn fs_main(@builtin(position) position: vec4<f32>) -> @location(0) vec4<f32> {\n    let uv = position.xy / uniforms.resolution;\n    let time = uniforms.time;\n\n\n    color = vec4(uv, position.x, 1.0);\n\n    return color;\n}\n";
    assert_eq!(b.convert_isf_to_wgsl(isf), Ok(expected.to_string()));
}

#[test]
fn isf_import_without_colour_output_uses_a_gradient() {
    let b = ShaderBrowser::new();
    let out = b.convert_isf_to_wgsl("void main() {}").unwrap();
    assert!(out.ends_with("    let time = uniforms.time;\n\n    let color = vec4<f32>(uv.x, uv.y, 0.5, 1.0);\n\n    return color;\n}\n"));
}

#[test]
fn projects_are_added_once_and_become_current() {
    let mut b = ShaderBrowser::new();
    assert!(!b.has_project("demo"));
    assert_eq!(b.add_project("demo".to_string(), "./projects/demo".to_string(), "A demo".to_string(), 42), Ok(()));
    assert!(b.has_project("demo"));
    assert_eq!(b.current_project, Some("demo".to_string()));
    assert_eq!(b.projects.len(), 1);
    assert_eq!(b.projects[0].path, "./projects/demo");
    assert_eq!((b.projects[0].created, b.projects[0].modified), (42, 42));
    assert_eq!(
        b.add_project("demo".to_string(), "./elsewhere".to_string(), String::new(), 43),
        Err("Project name already exists".to_string())
    );
    assert_eq!(b.projects.len(), 1);
}
