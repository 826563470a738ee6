use shader_studio::shader_transpiler::{
    AstNode, GlslToWgslTranspiler, HlslToWgslTranspiler, MultiFormatTranspiler, ShaderLanguage, ShaderOptimizer,
    ShaderValidator, TranspilerError, TranspilerOptions, WarningSeverity, WgslToGlslTranspiler,
    WgslToGlslVisitor, WgslToHlslTranspiler,
};

#[test]
fn test_glsl_to_wgsl_transpiler() {
    let transpiler = GlslToWgslTranspiler::new();
    let glsl_source = r#"
            #version 450 core
            
            attribute vec3 position;
            attribute vec2 uv;
            
            uniform mat4 mvpMatrix;
            
            void main() {
                gl_Position = mvpMatrix * vec4(position, 1.0);
            }
        "#;

    let options = TranspilerOptions {
        source_language: ShaderLanguage::Glsl,
        target_language: ShaderLanguage::Wgsl,
        ..Default::default()
    };

    let result = transpiler.transpile(glsl_source, &options);
    assert!(result.is_ok());

    let transpiled = result.unwrap();
    assert!(transpiled.source_code.contains("vec3<f32>"));
}

#[test]
fn test_transpiler_validation() {
    let validator = ShaderValidator::new();

    let result = validator.validate_source("valid shader code", ShaderLanguage::Wgsl);
    assert!(result.is_ok());

    let result = validator.validate_source("", ShaderLanguage::Wgsl);
    assert!(result.is_err());
}

#[test]
fn glsl_lines_are_rewritten_exactly() {
    let transpiler = GlslToWgslTranspiler::new();
    let options = TranspilerOptions::default();
    let out = transpiler
        .transpile("#version 330\n#extension GL_OES_standard_derivatives : enable\nvoid main() {\n  gl_FragColor = vec4(1.0);\n}\n", &options)
        .unwrap();
    assert_eq!(
        out.source_code,
        "// Transpiled from GLSL\n// Original size: 105 bytes\n\n fn main() {\n@location(0) var<out> fragColor: vec4<f32> = vec4<f32>(1.0);\n}\n"
    );
    assert_eq!(out.warnings.len(), 2);
    assert_eq!(out.warnings[0].message, "Extension ignored: #extension GL_OES_standard_derivatives : enable");
    assert_eq!(out.warnings[0].category, "extension");
    assert_eq!(out.warnings[1].message, "Manual gl_FragColor conversion required");
    assert_eq!(out.warnings[1].severity, WarningSeverity::Warning);
    assert_eq!(out.metadata.input_size, 105);
}

#[test]
fn wgsl_to_hlsl_rewrites_types_and_attributes() {
    let t = WgslToHlslTranspiler::new();
    let out = t
        .transpile("@location(0) var<in> p: vec3<f32>;\nlet t: texture_2d<f32>;", &TranspilerOptions::default())
        .unwrap();
    assert_eq!(
        out.source_code,
        "// Transpiled from WGSL to HLSL\n// Original size: 58 bytes\n\n var<in> p: float3;\nlet t: Texture2D<float>;\n"
    );
    assert_eq!(out.warnings[0].severity, WarningSeverity::Info);
    assert_eq!(out.info_log, "WGSL to HLSL transpilation completed");
    assert!(t.validate_source("x", ShaderLanguage::Glsl).is_err());
    assert!(t.validate_source("x", ShaderLanguage::Wgsl).is_ok());
}

#[test]
fn hlsl_to_wgsl_rewrites_types() {
    let t = HlslToWgslTranspiler::new();
    let out = t.transpile("float4 c : SV_Position;", &TranspilerOptions::default()).unwrap();
    assert_eq!(
        out.source_code,
        "// Transpiled from HLSL to WGSL\n// Original size: 23 bytes\n\nvec4<f32> c : @builtin(position);\n"
    );
}

#[test]
fn validator_refuses_large_sources() {
    let validator = ShaderValidator::new();
    let big = "a".repeat(1_000_001);
    match validator.validate_source(&big, ShaderLanguage::Wgsl) {
        Err(e) => assert_eq!(e.to_string(), "Validation error: Source code too large"),
        Ok(_) => panic!("a source over the limit must be refused"),
    }
    let exact = "a".repeat(1_000_000);
    assert!(validator.validate_source(&exact, ShaderLanguage::Wgsl).is_ok());
    let empty = validator.validate_source("", ShaderLanguage::Wgsl).unwrap_err();
    assert_eq!(empty.to_string(), "Validation error: Empty source code");
}

#[test]
fn language_mismatch_message() {
    let t = GlslToWgslTranspiler::new();
    let e = t.validate_source("x", ShaderLanguage::Hlsl).unwrap_err();
    assert_eq!(e.to_string(), "Language mismatch: HLSL -> GLSL");
    assert!(matches!(e, TranspilerError::LanguageMismatch(ShaderLanguage::Hlsl, ShaderLanguage::Glsl)));
    assert_eq!(ShaderLanguage::SpirV.to_string(), "SPIR-V");
}

#[test]
fn optimizer_keeps_code_and_records_passes() {
    let t = WgslToHlslTranspiler::new();
    let r = t.transpile("f32", &TranspilerOptions::default()).unwrap();
    let code = r.source_code.clone();
    let o = ShaderOptimizer::new().optimize(r, &TranspilerOptions::default()).unwrap();
    assert_eq!(o.source_code, code);
    assert_eq!(o.metadata.optimization_passes, vec!["applied".to_string(), "applied".to_string()]);
}

fn tree() -> AstNode {
    AstNode::TranslationUnit(vec![
        AstNode::StructDecl {
            name: "Uniforms".to_string(),
            members: vec![
                AstNode::StructMember { name: "time".to_string(), type_label: "f32".to_string() },
                AstNode::StructMember { name: "m".to_string(), type_label: "mat3x3<f32>".to_string() },
            ],
        },
        AstNode::GlobalVarDecl {
            name: "tex".to_string(),
            type_label: "texture_2d<f32>".to_string(),
            initializer: None,
        },
        AstNode::FunctionDecl {
            name: "fs_main".to_string(),
            params: vec![],
            return_type: Some("vec4<f32>".to_string()),
            body: Box::new(AstNode::BlockStatement(vec![
                AstNode::IfStatement {
                    condition: "x > 0.0".to_string(),
                    then_branch: Box::new(AstNode::ReturnStatement(Some("c".to_string()))),
                    else_branch: Some(Box::new(AstNode::AssignmentStatement {
                        target: "y".to_string(),
                        value: "1.0".to_string(),
                    })),
                },
                AstNode::Other("loop".to_string()),
            ])),
        },
    ])
}

#[test]
fn syntax_tree_is_written_as_glsl() {
    let mut v = WgslToGlslVisitor::new();
    let out = v.visit_ast(&tree()).unwrap();
    let expected = [
        "#version 450 core\n",
        "\n",
        "struct Uniforms {\n",
        "        float time;\n",
        "        mat3x3<f32> m;\n",
        "}\n",
        "\n",
        "texture_2d<f32> tex;\n",
        "\n",
        "fragment fs_main() -> vec4 {\n",
        "        if (x > 0.0) {\n",
        "                return c;\n",
        "    } else {\n",
        "                y = 1.0;\n",
        "    }\n",
        "}\n",
        "\n",
    ]
    .concat();
    assert_eq!(out, expected);
    let warnings = v.get_warnings();
    assert_eq!(warnings.len(), 3);
    assert_eq!(warnings[0].message, "Unknown type mapping for: mat3x3<f32>");
    assert_eq!(warnings[1].message, "Unknown type mapping for: texture_2d<f32>");
    assert_eq!(warnings[2].message, "Unsupported AST node: loop");
    assert_eq!(warnings[2].category, "transpiler");
}

#[test]
fn syntax_tree_metadata_lists_uniforms_and_textures() {
    let t = WgslToGlslTranspiler::new();
    let r = t.transpile_ast(&tree(), "src").unwrap();
    assert_eq!(r.metadata.input_size, 3);
    assert_eq!(r.metadata.uniform_blocks.len(), 1);
    assert_eq!(r.metadata.uniform_blocks[0].name, "Uniforms");
    assert_eq!(r.metadata.uniform_blocks[0].members.len(), 2);
    assert_eq!(r.metadata.uniform_blocks[0].members[1].type_label, "mat3x3<f32>");
    assert_eq!(r.metadata.texture_bindings.len(), 1);
    assert_eq!(r.metadata.texture_bindings[0].name, "tex");
    assert_eq!(r.metadata.texture_bindings[0].sample_type, "float");
    assert_eq!(r.metadata.output_size, r.source_code.len());
}

#[test]
fn multi_format_lists_its_conversions() {
    let m = MultiFormatTranspiler::new();
    assert_eq!(
        m.get_supported_conversions(),
        vec![
            (ShaderLanguage::Glsl, ShaderLanguage::Wgsl),
            (ShaderLanguage::Wgsl, ShaderLanguage::Hlsl),
            (ShaderLanguage::Hlsl, ShaderLanguage::Wgsl),
        ]
    );
}

#[test]
fn multi_format_refuses_a_pair_without_translator() {
    let m = MultiFormatTranspiler::new();
    let options = TranspilerOptions {
        source_language: ShaderLanguage::Glsl,
        target_language: ShaderLanguage::Hlsl,
        ..Default::default()
    };
    match m.transpile("void main() {}", &options) {
        Err(TranspilerError::LanguageMismatch(a, b)) => {
            assert_eq!(a, ShaderLanguage::Glsl);
            assert_eq!(b, ShaderLanguage::Hlsl);
        }
        _ => panic!("expected a language mismatch"),
    }
}

#[test]
fn multi_format_validates_before_choosing() {
    let m = MultiFormatTranspiler::new();
    let options = TranspilerOptions {
        source_language: ShaderLanguage::Glsl,
        target_language: ShaderLanguage::Hlsl,
        ..Default::default()
    };
    match m.transpile("", &options) {
        Err(TranspilerError::ValidationError(e)) => assert_eq!(e, "Empty source code"),
        _ => panic!("expected a validation error"),
    }
}

#[test]
fn multi_format_translates_and_optimizes() {
    let m = MultiFormatTranspiler::new();
    let options = TranspilerOptions {
        source_language: ShaderLanguage::Hlsl,
        target_language: ShaderLanguage::Wgsl,
        optimize_code: true,
        ..Default::default()
    };
    let direct = HlslToWgslTranspiler::new()
        .transpile("float3 c = float3(1.0, 0.0, 0.0);", &options)
        .unwrap();
    let out = m.transpile("float3 c = float3(1.0, 0.0, 0.0);", &options).unwrap();
    assert_eq!(out.source_code, direct.source_code);
    assert_eq!(out.metadata.optimization_passes, vec!["applied".to_string(), "applied".to_string()]);
    let plain = TranspilerOptions { optimize_code: false, ..options };
    let out = m.transpile("float3 c = float3(1.0, 0.0, 0.0);", &plain).unwrap();
    assert!(out.metadata.optimization_passes.is_empty());
}

#[test]
fn multi_format_registration_adds_a_pair() {
    let mut m = MultiFormatTranspiler::new();
    m.register_transpiler(ShaderLanguage::Glsl, ShaderLanguage::Hlsl, Box::new(GlslToWgslTranspiler::new()));
    m.register_transpiler(ShaderLanguage::Glsl, ShaderLanguage::Wgsl, Box::new(GlslToWgslTranspiler::new()));
    let conversions = m.get_supported_conversions();
    assert_eq!(conversions.len(), 4);
    assert_eq!(conversions[3], (ShaderLanguage::Glsl, ShaderLanguage::Hlsl));
    let options = TranspilerOptions {
        source_language: ShaderLanguage::Glsl,
        target_language: ShaderLanguage::Hlsl,
        ..Default::default()
    };
    let out = m.transpile("attribute vec3 position;", &options).unwrap();
    assert!(out.source_code.contains("vec3<f32>"));
}

#[test]
fn test_wgsl_to_glsl_transpiler() {
    let transpiler = WgslToGlslTranspiler::new();
    let wgsl_source = r#"
            struct VertexInput {
                @location(0) position: vec3<f32>,
                @location(1) uv: vec2<f32>,
            }

            @vertex
            fn vs_main(input: VertexInput) -> @builtin(position) vec4<f32> {
                return vec4<f32>(input.position, 1.0);
            }
        "#;
    let ast = AstNode::TranslationUnit(vec![
        AstNode::StructDecl {
            name: "VertexInput".to_string(),
            members: vec![
                AstNode::StructMember { name: "position".to_string(), type_label: "vec3<f32>".to_string() },
                AstNode::StructMember { name: "uv".to_string(), type_label: "vec2<f32>".to_string() },
            ],
        },
        AstNode::FunctionDecl {
            name: "vs_main".to_string(),
            params: vec![AstNode::StructMember { name: "input".to_string(), type_label: "VertexInput".to_string() }],
            return_type: Some("vec4<f32>".to_string()),
            body: Box::new(AstNode::BlockStatement(vec![AstNode::ReturnStatement(Some(
                "vec4<f32>(input.position, 1.0)".to_string(),
            ))])),
        },
    ]);

    let result = transpiler.transpile_ast(&ast, wgsl_source);
    assert!(result.is_ok());

    let transpiled = result.unwrap();
    assert!(transpiled.source_code.contains("#version 450 core"));
    assert!(transpiled.source_code.contains("struct VertexInput"));
}

#[test]
fn multi_format_registration_replaces_the_translator_of_a_pair() {
    let mut m = MultiFormatTranspiler::new();
    m.register_transpiler(ShaderLanguage::Hlsl, ShaderLanguage::Wgsl, Box::new(GlslToWgslTranspiler::new()));
    assert_eq!(m.get_supported_conversions().len(), 3);
    let options = TranspilerOptions {
        source_language: ShaderLanguage::Hlsl,
        target_language: ShaderLanguage::Wgsl,
        ..Default::default()
    };
    let source = "attribute vec3 position;";
    let expected = GlslToWgslTranspiler::new().transpile(source, &options).unwrap();
    let out = m.transpile(source, &options).unwrap();
    assert_eq!(out.source_code, expected.source_code);
    let hlsl = HlslToWgslTranspiler::new().transpile(source, &options).unwrap();
    assert_ne!(out.source_code, hlsl.source_code);
}
