use shader_studio::parameter_panel::{line_parameter_exec, parse_shader_parameters, ParamType};

fn names_and_types(code: &str) -> Vec<(String, ParamType)> {
    parse_shader_parameters(code).into_iter().map(|p| (p.name, p.param_type)).collect()
}

#[test]
fn uniform_declarations_become_parameters() {
    let code = "var<uniform> time: f32;\nvar<uniform> offset: vec2<f32>;\n@group(0) @binding(1) var<uniform> tint: vec3<f32>;\nlet x = 1.0;\nvar<uniform> color: vec4<f32>;\r\n";
    assert_eq!(
        names_and_types(code),
        vec![
            ("time".to_string(), ParamType::Float),
            ("offset".to_string(), ParamType::Vec2),
            ("tint".to_string(), ParamType::Vec3),
            ("color".to_string(), ParamType::Vec4),
        ]
    );
}

#[test]
fn a_name_running_to_the_end_of_the_line_is_skipped() {
    assert!(names_and_types("var<uniform> tail").is_empty());
    assert!(names_and_types("var<uniform> ;").is_empty());
    assert!(names_and_types("").is_empty());
}

#[test]
fn the_character_after_the_keyword_is_skipped() {
    assert_eq!(names_and_types("var<uniform>xname: f32;"), vec![("name".to_string(), ParamType::Float)]);
}

#[test]
fn unicode_letters_belong_to_names() {
    assert_eq!(
        names_and_types("var<uniform> Ünïcode_9: vec3<f32>;"),
        vec![("Ünïcode_9".to_string(), ParamType::Vec3)]
    );
}

#[test]
fn the_first_annotation_decides_and_scalars_are_the_default() {
    assert_eq!(names_and_types("var<uniform> m: mat4x4<f32>;"), vec![("m".to_string(), ParamType::Float)]);
    assert_eq!(
        names_and_types("var<uniform> a: vec3<f32>; // or : vec2"),
        vec![("a".to_string(), ParamType::Vec2)]
    );
    assert_eq!(
        names_and_types("var<uniform> a: f32; // was : vec4"),
        vec![("a".to_string(), ParamType::Float)]
    );
}

#[test]
fn one_line_at_a_time() {
    let line: Vec<char> = "  var<uniform> speed: f32;".chars().collect();
    let p = line_parameter_exec(&line).unwrap();
    assert_eq!(p.name, "speed");
    assert_eq!(p.param_type, ParamType::Float);
    let other: Vec<char> = "let speed = 2.0;".chars().collect();
    assert!(line_parameter_exec(&other).is_none());
}
