use shader_studio::shader_converter::{
    extract_uniform_name, isf_to_wgsl, wgsl_to_glsl, wgsl_to_hlsl, InputType, IsfShader, OutputType,
    ShaderInput, ShaderOutput,
};

fn input(name: &str, input_type: InputType) -> ShaderInput {
    ShaderInput { name: name.to_string(), input_type }
}

#[test]
fn isf_to_wgsl_declares_every_input_and_stores_the_colour() {
    let shader = IsfShader {
        name: "Test".to_string(),
        source: "/*{\"NAME\":\"x\"}*/\nvoid main() {\n    gl_FragColor = vec4(sin(TIME), 0.0, 0.0, 1.0);\n}\n".to_string(),
        inputs: vec![
            input("brightness", InputType::Float),
            input("tint", InputType::Color),
            input("tex", InputType::Image),
            input("on", InputType::Bool),
            input("pos", InputType::Point2D),
        ],
        outputs: vec![ShaderOutput { name: "out".to_string(), output_type: OutputType::Image }],
    };
    assert_eq!(isf_to_wgsl(&shader), "@group(0) @binding(0)\nvar<uniform> time: f32;\n@group(0) @binding(1)\nvar<uniform> resolution: vec2<f32>;\n@group(0) @binding(2)\nvar<uniform> brightness: f32;\n@group(0) @binding(3)\nvar<uniform> tint: vec4<f32>;\n@group(1) @binding(2)\nvar tex: texture_2d<f32>;\n@group(1) @binding(3)\nvar tex_sampler: sampler;\n@group(0) @binding(5)\nvar<uniform> on: u32;\n@group(0) @binding(6)\nvar<uniform> pos: vec2<f32>;\n@group(2) @binding(0)\nvar output_texture: texture_storage_2d<rgba8unorm, write>;\n@compute @workgroup_size(16, 16)\nfn main(@builtin(global_invocation_id) global_id: vec3<u32>) {\n    let coords = vec2<i32>(global_id.xy);\n    let uv = vec2<f32>(coords) / resolution;\nfn main() {\n    let color = vec4<f32>(sin<f32>(TIME), 0.0, 0.0, 1.0);\n}    textureStore(output_texture, coords, color);\n}\n");
}

#[test]
fn isf_to_wgsl_binds_a_repeated_name_at_its_first_position() {
    let shader = IsfShader {
        name: "Dup".to_string(),
        source: "/*{\"NAME\":\"y\"}*/ float v = mod(1.0, 2.0);".to_string(),
        inputs: vec![input("a", InputType::Float), input("a", InputType::Bool)],
        outputs: vec![],
    };
    assert_eq!(isf_to_wgsl(&shader), "@group(0) @binding(0)\nvar<uniform> time: f32;\n@group(0) @binding(1)\nvar<uniform> resolution: vec2<f32>;\n@group(0) @binding(2)\nvar<uniform> a: f32;\n@group(0) @binding(2)\nvar<uniform> a: u32;\n@group(2) @binding(0)\nvar output_texture: texture_storage_2d<rgba8unorm, write>;\n@compute @workgroup_size(16, 16)\nfn main(@builtin(global_invocation_id) global_id: vec3<u32>) {\n    let coords = vec2<i32>(global_id.xy);\n    let uv = vec2<f32>(coords) / resolution;\nfloat v = f32(1.0, 2.0);}\n");
}

#[test]
fn wgsl_to_glsl_converts_uniforms_and_body() {
    assert_eq!(wgsl_to_glsl("var<uniform> speed: f32;\nvar<uniform> tint: vec4<f32>;\nfn main() {\n    let x = f32(1);\n}\n"), Ok("#version 330 core\nuniform float time;\nuniform vec2 resolution;\nuniform vec2 mouse;\nout vec4 fragColor;\nuniform speed;uniform tint: vec4<f32>;void main() {\n    vec2 uv = gl_FragCoord.xy / resolution;\n\n    x = float(1) = \n}\n".to_string()));
}

#[test]
fn wgsl_to_hlsl_converts_uniforms_and_body() {
    assert_eq!(wgsl_to_hlsl("var<uniform> speed: f32;\nvar<uniform> tint: vec4<f32>;\nfn main() {\n    let x = f32(1);\n}\n"), Ok("cbuffer Constants {\n    float time;\n    float2 resolution;\n    float2 mouse;\n};\n\nfloat speed;\nfloat tint;\n\nstruct PSInput {\n    float4 position : SV_POSITION;\n    float2 uv : TEXCOORD;\n};\n\nfloat4 main(PSInput input) : SV_TARGET {\n    float2 uv = input.uv;\n\n    x = float(1) = \n}\n".to_string()));
}

#[test]
fn conversions_without_main_fail() {
    let msg = "Could not extract WGSL main function body".to_string();
    assert_eq!(wgsl_to_glsl("var<uniform> t: f32;\n"), Err(msg.clone()));
    assert_eq!(wgsl_to_hlsl("fn main() no braces"), Err(msg));
}

#[test]
fn extract_uniform_name_trims_the_declared_name() {
    let line: Vec<char> = "var<uniform> speed : f32;".chars().collect();
    let name: String = extract_uniform_name(&line).into_iter().collect();
    assert_eq!(name, "speed");
    let plain: Vec<char> = "let x = 1;".chars().collect();
    assert!(extract_uniform_name(&plain).is_empty());
}
