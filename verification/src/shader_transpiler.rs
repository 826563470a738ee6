//! Translation between shading languages: WGSL to GLSL over a syntax tree,
//! and GLSL to WGSL, WGSL to HLSL and HLSL to WGSL line by line.
use vstd::prelude::*;
use vstd::utf8::encode_utf8;
use crate::text::{
    chars_of, contains, contains_str, lines, lines_exec, nat_text, pair_views, push_chars,
    push_nat, push_str, replace_all, replace_each, replace_each_exec, replace_str, rewrites_to, starts_with, lemma_missing_char,
    lemma_contains_split, lemma_replace_all_absent, lemma_replace_all_leading, lemma_replace_each_absent,
    lemma_replace_each_split, occurs_at,
    starts_with_str, string_of, trim, trim_exec,
};

verus! {

#[derive(Clone, Copy, Debug, PartialEq, Eq, Structural)]
pub enum ShaderLanguage {
    Wgsl,
    Glsl,
    Hlsl,
    Msl,
    SpirV,
}

/// The display name of a language.
pub open spec fn language_name(l: ShaderLanguage) -> Seq<char> {
    match l {
        ShaderLanguage::Wgsl => "WGSL"@,
        ShaderLanguage::Glsl => "GLSL"@,
        ShaderLanguage::Hlsl => "HLSL"@,
        ShaderLanguage::Msl => "MSL"@,
        ShaderLanguage::SpirV => "SPIR-V"@,
    }
}

impl ShaderLanguage {
    /// The display name: `WGSL`, `GLSL`, `HLSL`, `MSL` or `SPIR-V`.
    pub fn to_string(&self) -> (s: String)
        ensures
            s@ == language_name(*self),
    {
        let name = match self {
            ShaderLanguage::Wgsl => "WGSL",
            ShaderLanguage::Glsl => "GLSL",
            ShaderLanguage::Hlsl => "HLSL",
            ShaderLanguage::Msl => "MSL",
            ShaderLanguage::SpirV => "SPIR-V",
        };
        string_of(chars_of(name).as_slice())
    }
}

#[derive(Clone, Copy, Debug, PartialEq, Eq, Structural)]
pub enum ShaderStage {
    Vertex,
    Fragment,
    Compute,
    Geometry,
    TessellationControl,
    TessellationEvaluation,
    Mesh,
    Task,
}

#[derive(Clone, Copy, Debug, PartialEq, Eq, Structural)]
pub enum TranspilerProfile {
    Core,
    Compatibility,
    ES,
    Desktop,
    Mobile,
    Web,
}

#[derive(Clone, Debug)]
pub struct TranspilerOptions {
    pub source_language: ShaderLanguage,
    pub target_language: ShaderLanguage,
    pub preserve_comments: bool,
    pub optimize_code: bool,
    pub validate_semantics: bool,
    pub generate_debug_info: bool,
    pub enable_extensions: Vec<String>,
    pub shader_stage: ShaderStage,
    pub profile: TranspilerProfile,
}

impl Default for TranspilerOptions {
    /// WGSL to GLSL for a fragment shader, core profile, with comments kept
    /// and semantic validation on.
    fn default() -> (o: Self)
        ensures
            o.source_language == ShaderLanguage::Wgsl,
            o.target_language == ShaderLanguage::Glsl,
            o.preserve_comments,
            !o.optimize_code,
            o.validate_semantics,
            !o.generate_debug_info,
            o.enable_extensions@.len() == 0,
            o.shader_stage == ShaderStage::Fragment,
            o.profile == TranspilerProfile::Core,
    {
        TranspilerOptions {
            source_language: ShaderLanguage::Wgsl,
            target_language: ShaderLanguage::Glsl,
            preserve_comments: true,
            optimize_code: false,
            validate_semantics: true,
            generate_debug_info: false,
            enable_extensions: Vec::new(),
            shader_stage: ShaderStage::Fragment,
            profile: TranspilerProfile::Core,
        }
    }
}

#[derive(Clone, Debug)]
pub struct UniformMemberInfo {
    pub name: String,
    pub type_label: String,
    pub offset: usize,
    pub size: usize,
    pub array_size: Option<usize>,
}

#[derive(Clone, Debug)]
pub struct UniformBlockInfo {
    pub name: String,
    pub binding: u32,
    pub set: u32,
    pub size: usize,
    pub members: Vec<UniformMemberInfo>,
}

#[derive(Clone, Debug)]
pub struct TextureBindingInfo {
    pub name: String,
    pub binding: u32,
    pub set: u32,
    pub texture_type: String,
    pub sample_type: String,
}

/// Facts about a translation. Sizes are in bytes; the time is in
/// microseconds and is filled in by whoever measures it.
#[derive(Clone, Debug)]
pub struct TranspilerMetadata {
    pub input_size: usize,
    pub output_size: usize,
    pub transpile_time_us: u64,
    pub optimization_passes: Vec<String>,
    pub used_extensions: Vec<String>,
    pub uniform_blocks: Vec<UniformBlockInfo>,
    pub texture_bindings: Vec<TextureBindingInfo>,
}

#[derive(Clone, Copy, Debug, PartialEq, Eq, Structural)]
pub enum WarningSeverity {
    Info,
    Warning,
    Error,
}

#[derive(Clone, Debug)]
pub struct TranspilerWarning {
    pub line: usize,
    pub column: usize,
    pub message: String,
    pub severity: WarningSeverity,
    pub category: String,
}

#[derive(Clone, Debug)]
pub struct TranspilerResult {
    pub source_code: String,
    pub source_map: Option<String>,
    pub dependencies: Vec<String>,
    pub warnings: Vec<TranspilerWarning>,
    pub info_log: String,
    pub metadata: TranspilerMetadata,
}

#[derive(Clone, Debug)]
pub enum TranspilerError {
    ParseError(String),
    SemanticError(String),
    UnsupportedFeature(String),
    LanguageMismatch(ShaderLanguage, ShaderLanguage),
    ValidationError(String),
    IoError(String),
    InternalError(String),
}

/// The message of an error.
pub open spec fn error_message(e: TranspilerError) -> Seq<char> {
    match e {
        TranspilerError::ParseError(m) => "Parse error: "@ + m@,
        TranspilerError::SemanticError(m) => "Semantic error: "@ + m@,
        TranspilerError::UnsupportedFeature(m) => "Unsupported feature: "@ + m@,
        TranspilerError::LanguageMismatch(a, b) => "Language mismatch: "@ + language_name(a) + " -> "@
            + language_name(b),
        TranspilerError::ValidationError(m) => "Validation error: "@ + m@,
        TranspilerError::IoError(m) => "IO error: "@ + m@,
        TranspilerError::InternalError(m) => "Internal error: "@ + m@,
    }
}

impl TranspilerError {
    /// The message of this error, such as `Validation error: Empty source code`.
    pub fn to_string(&self) -> (s: String)
        ensures
            s@ == error_message(*self),
    {
        let mut out: Vec<char> = Vec::new();
        match self {
            TranspilerError::ParseError(m) => {
                push_str(&mut out, "Parse error: ");
                push_str(&mut out, m.as_str());
            },
            TranspilerError::SemanticError(m) => {
                push_str(&mut out, "Semantic error: ");
                push_str(&mut out, m.as_str());
            },
            TranspilerError::UnsupportedFeature(m) => {
                push_str(&mut out, "Unsupported feature: ");
                push_str(&mut out, m.as_str());
            },
            TranspilerError::LanguageMismatch(a, b) => {
                push_str(&mut out, "Language mismatch: ");
                let x = a.to_string();
                push_str(&mut out, x.as_str());
                push_str(&mut out, " -> ");
                let y = b.to_string();
                push_str(&mut out, y.as_str());
            },
            TranspilerError::ValidationError(m) => {
                push_str(&mut out, "Validation error: ");
                push_str(&mut out, m.as_str());
            },
            TranspilerError::IoError(m) => {
                push_str(&mut out, "IO error: ");
                push_str(&mut out, m.as_str());
            },
            TranspilerError::InternalError(m) => {
                push_str(&mut out, "Internal error: ");
                push_str(&mut out, m.as_str());
            },
        }
        string_of(out.as_slice())
    }
}

/// A warning as the contracts see it: line, column, message, severity and category.
pub open spec fn warning_view(w: TranspilerWarning) -> (usize, usize, Seq<char>, WarningSeverity, Seq<
    char,
>) {
    (w.line, w.column, w.message@, w.severity, w.category@)
}

pub open spec fn warnings_view(ws: Seq<TranspilerWarning>) -> Seq<
    (usize, usize, Seq<char>, WarningSeverity, Seq<char>),
> {
    ws.map_values(|w: TranspilerWarning| warning_view(w))
}

/// The warnings raised while translating: message and category, each at line 1, column 1.
pub open spec fn raised(ms: Seq<(Seq<char>, Seq<char>)>) -> Seq<
    (usize, usize, Seq<char>, WarningSeverity, Seq<char>),
> {
    ms.map_values(
        |m: (Seq<char>, Seq<char>)| (1usize, 1usize, m.0, WarningSeverity::Warning, m.1),
    )
}

/// The byte length of a text in UTF-8, as `str::len` reports it.
pub open spec fn byte_len(s: Seq<char>) -> nat {
    (encode_utf8(s).len() as usize) as nat
}

/// The header of a line-by-line translation.
pub open spec fn size_banner(title: Seq<char>, source: Seq<char>) -> Seq<char> {
    title + "// Original size: "@ + nat_text(byte_len(source)) + " bytes\n\n"@
}

// ---------------------------------------------------------------------------
// Source validation and optimisation
// ---------------------------------------------------------------------------

/// The largest source, in bytes, that validation accepts.
pub const MAX_SOURCE_BYTES: usize = 1_000_000;

/// The outcome of validating a source: refused when empty or larger than
/// `MAX_SOURCE_BYTES` bytes.
pub open spec fn validation_outcome(source: Seq<char>) -> Option<Seq<char>> {
    if source.len() == 0 {
        Some("Empty source code"@)
    } else if byte_len(source) > MAX_SOURCE_BYTES {
        Some("Source code too large"@)
    } else {
        None
    }
}

/// Checks sources before translation: the syntax rule (not empty), then the
/// semantic rule (not too large).
pub struct ShaderValidator {}

impl ShaderValidator {
    pub fn new() -> (v: Self) {
        ShaderValidator {}
    }

    /// Runs the rules in order; the first that fails gives the error.
    pub fn validate_source(&self, source: &str, language: ShaderLanguage) -> (r: Result<
        (),
        TranspilerError,
    >)
        ensures
            match validation_outcome(source@) {
                Some(m) => r matches Err(TranspilerError::ValidationError(e)) && e@ == m,
                None => r is Ok,
            },
    {
        Self::validate_syntax(source, language)?;
        Self::validate_semantics(source, language)
    }

    /// An empty source is refused.
    fn validate_syntax(source: &str, language: ShaderLanguage) -> (r: Result<(), TranspilerError>)
        ensures
            source@.len() == 0 ==> (r matches Err(TranspilerError::ValidationError(e)) && e@
                == "Empty source code"@),
            source@.len() > 0 ==> r is Ok,
    {
        if source.is_empty() {
            return Err(
                TranspilerError::ValidationError(string_of(chars_of("Empty source code").as_slice())),
            );
        }
        Ok(())
    }

    /// A source of more than `MAX_SOURCE_BYTES` bytes is refused.
    fn validate_semantics(source: &str, language: ShaderLanguage) -> (r: Result<(), TranspilerError>)
        ensures
            byte_len(source@) > MAX_SOURCE_BYTES ==> (r matches Err(
                TranspilerError::ValidationError(e),
            ) && e@ == "Source code too large"@),
            byte_len(source@) <= MAX_SOURCE_BYTES ==> r is Ok,
    {
        if source.len() > MAX_SOURCE_BYTES {
            return Err(
                TranspilerError::ValidationError(
                    string_of(chars_of("Source code too large").as_slice()),
                ),
            );
        }
        Ok(())
    }
}

/// Rewrites translated code; both passes leave the code as it is.
pub struct ShaderOptimizer {}

impl ShaderOptimizer {
    pub fn new() -> (o: Self) {
        ShaderOptimizer {}
    }

    /// Runs the passes in order and records one `applied` entry per pass.
    pub fn optimize(&self, result: TranspilerResult, options: &TranspilerOptions) -> (r: Result<
        TranspilerResult,
        TranspilerError,
    >)
        ensures
            r matches Ok(o) && o.source_code@ == result.source_code@ && o.warnings@ == result.warnings@
                && o.info_log@ == result.info_log@ && o.metadata.optimization_passes@.map_values(
                |s: String| s@,
            ) == seq!["applied"@, "applied"@] && o.metadata.input_size == result.metadata.input_size
                && o.metadata.output_size == result.metadata.output_size && o.metadata.transpile_time_us
                == result.metadata.transpile_time_us && o.metadata.used_extensions@
                == result.metadata.used_extensions@ && o.metadata.uniform_blocks@
                == result.metadata.uniform_blocks@ && o.metadata.texture_bindings@
                == result.metadata.texture_bindings@ && o.source_map == result.source_map
                && o.dependencies@ == result.dependencies@,
    {
        let mut result = result;
        let mut passes: Vec<String> = Vec::new();
        result.source_code = Self::remove_unused_variables(result.source_code)?;
        passes.push(string_of(chars_of("applied").as_slice()));
        result.source_code = Self::simplify_expressions(result.source_code)?;
        passes.push(string_of(chars_of("applied").as_slice()));
        result.metadata.optimization_passes = passes;
        assert(result.metadata.optimization_passes@.map_values(|s: String| s@) =~= seq![
            "applied"@,
            "applied"@,
        ]);
        Ok(result)
    }

    fn remove_unused_variables(code: String) -> (r: Result<String, TranspilerError>)
        ensures
            r matches Ok(c) && c@ == code@,
    {
        Ok(code)
    }

    fn simplify_expressions(code: String) -> (r: Result<String, TranspilerError>)
        ensures
            r matches Ok(c) && c@ == code@,
    {
        Ok(code)
    }
}


/// Metadata for a translation without syntax tree facts.
fn plain_metadata(source: &str, output: &str) -> (m: TranspilerMetadata)
    ensures
        m.input_size == byte_len(source@),
        m.output_size == byte_len(output@),
        m.transpile_time_us == 0,
        m.optimization_passes@.len() == 0,
        m.used_extensions@.len() == 0,
        m.uniform_blocks@.len() == 0,
        m.texture_bindings@.len() == 0,
{
    TranspilerMetadata {
        input_size: source.len(),
        output_size: output.len(),
        transpile_time_us: 0,
        optimization_passes: Vec::new(),
        used_extensions: Vec::new(),
        uniform_blocks: Vec::new(),
        texture_bindings: Vec::new(),
    }
}

/// Appends the header of a line-by-line translation.
fn push_size_banner(out: &mut Vec<char>, title: &str, source: &str)
    ensures
        final(out)@ == old(out)@ + size_banner(title@, source@),
{
    push_str(out, title);
    push_str(out, "// Original size: ");
    push_nat(out, source.len() as u128);
    push_str(out, " bytes\n\n");
    assert(final(out)@ =~= old(out)@ + size_banner(title@, source@));
}

// ---------------------------------------------------------------------------
// GLSL to WGSL
// ---------------------------------------------------------------------------

/// The rewrites applied to every GLSL line, in order.
pub open spec fn glsl_line_rewrites() -> Seq<(Seq<char>, Seq<char>)> {
    seq![
        ("attribute "@, "@location(0) "@),
        ("varying "@, "@location(0) "@),
        ("uniform "@, "@group(0) @binding(0) "@),
        ("texture2D"@, "textureSample"@),
        ("vec2"@, "vec2<f32>"@),
        ("vec3"@, "vec3<f32>"@),
        ("vec4"@, "vec4<f32>"@),
        ("mat4"@, "mat4x4<f32>"@),
        ("float"@, "f32"@),
        ("int"@, "i32"@),
        ("void"@, ""@),
    ]
}

/// GLSL types keep their shape in WGSL: each vector type `vecN` becomes
/// `vecN<f32>` of the same dimension `N`, the 4x4 matrix `mat4` the 4x4
/// matrix `mat4x4<f32>`, and `float` and `int` the scalars `f32` and `i32`.
pub proof fn lemma_glsl_types_keep_their_shape()
    ensures
        forall|d: char| '2' <= d <= '4' ==> rewrites_to(glsl_line_rewrites(), "vec"@.push(d), "vec"@.push(d) + "<f32>"@),
        forall|d: char|
            d == '4' ==> rewrites_to(glsl_line_rewrites(), "mat"@.push(d), "mat"@.push(d) + "x"@.push(d) + "<f32>"@),
        rewrites_to(glsl_line_rewrites(), "float"@, "f32"@),
        rewrites_to(glsl_line_rewrites(), "int"@, "i32"@),
{
    let t = glsl_line_rewrites();
    reveal_strlit("attribute ");
    reveal_strlit("varying ");
    reveal_strlit("uniform ");
    reveal_strlit("texture2D");
    reveal_strlit("vec2");
    reveal_strlit("vec3");
    reveal_strlit("vec4");
    reveal_strlit("mat4");
    reveal_strlit("float");
    reveal_strlit("int");
    reveal_strlit("vec2<f32>");
    reveal_strlit("vec3<f32>");
    reveal_strlit("vec4<f32>");
    reveal_strlit("mat4x4<f32>");
    reveal_strlit("f32");
    reveal_strlit("i32");
    reveal_strlit("vec");
    reveal_strlit("mat");
    reveal_strlit("x");
    reveal_strlit("<f32>");
    assert forall|d: char| '2' <= d <= '4' implies rewrites_to(t, "vec"@.push(d), "vec"@.push(d) + "<f32>"@) by {
        let i: int = if d == '2' {
            4
        } else if d == '3' {
            5
        } else {
            6
        };
        assert(t[i].0 =~= "vec"@.push(d));
        assert(t[i].1 =~= "vec"@.push(d) + "<f32>"@);
        assert forall|j: int| 0 <= j < i implies t[j].0 != "vec"@.push(d) by {
            if j >= 4 {
                assert(t[j].0[3] != d);
            } else {
                assert(t[j].0.len() != 4);
            }
        }
    }
    assert forall|d: char| d == '4' implies rewrites_to(t, "mat"@.push(d), "mat"@.push(d) + "x"@.push(d) + "<f32>"@) by {
        assert(t[7].0 =~= "mat"@.push(d));
        assert(t[7].1 =~= "mat"@.push(d) + "x"@.push(d) + "<f32>"@);
        assert forall|j: int| 0 <= j < 7 implies t[j].0 != "mat"@.push(d) by {
            if j >= 4 {
                assert(t[j].0[0] != 'm');
            } else {
                assert(t[j].0.len() != 4);
            }
        }
    }
    assert(t[8] == ("float"@, "f32"@));
    assert forall|j: int| 0 <= j < 8 implies t[j].0 != "float"@ by {
        assert(t[j].0.len() != "float"@.len());
    }
    assert(t[9] == ("int"@, "i32"@));
    assert forall|j: int| 0 <= j < 9 implies t[j].0 != "int"@ by {
        assert(t[j].0.len() != "int"@.len());
    }
}

fn glsl_line_table() -> (r: Vec<(&'static str, &'static str)>)
    ensures
        pair_views(r@) == glsl_line_rewrites(),
{
    let mut r: Vec<(&'static str, &'static str)> = Vec::new();
    r.push(("attribute ", "@location(0) "));
    r.push(("varying ", "@location(0) "));
    r.push(("uniform ", "@group(0) @binding(0) "));
    r.push(("texture2D", "textureSample"));
    r.push(("vec2", "vec2<f32>"));
    r.push(("vec3", "vec3<f32>"));
    r.push(("vec4", "vec4<f32>"));
    r.push(("mat4", "mat4x4<f32>"));
    r.push(("float", "f32"));
    r.push(("int", "i32"));
    r.push(("void", ""));
    assert(pair_views(r@) =~= glsl_line_rewrites());
    r
}

/// A GLSL line in WGSL, with the warnings (message, category) it raises:
/// the rewrites, `main()` made a function when the line has no `fn`, and the
/// built-in outputs `gl_Position` and `gl_FragColor` declared, each with a warning.
pub open spec fn glsl_line_to_wgsl(line: Seq<char>) -> (Seq<char>, Seq<(Seq<char>, Seq<char>)>) {
    let r0 = replace_each(line, glsl_line_rewrites());
    let r1 = if contains(r0, "main()"@) && !contains(r0, "fn"@) {
        replace_all(r0, "main()"@, "fn main()"@)
    } else {
        r0
    };
    let r2 = if contains(r1, "gl_Position"@) {
        replace_all(r1, "gl_Position"@, "@builtin(position) var<out> position: vec4<f32>"@)
    } else {
        r1
    };
    let w2: Seq<(Seq<char>, Seq<char>)> = if contains(r1, "gl_Position"@) {
        seq![("Manual gl_Position conversion required"@, "builtin"@)]
    } else {
        seq![]
    };
    let r3 = if contains(r2, "gl_FragColor"@) {
        replace_all(r2, "gl_FragColor"@, "@location(0) var<out> fragColor: vec4<f32>"@)
    } else {
        r2
    };
    let w3: Seq<(Seq<char>, Seq<char>)> = if contains(r2, "gl_FragColor"@) {
        seq![("Manual gl_FragColor conversion required"@, "builtin"@)]
    } else {
        seq![]
    };
    (r3, w2 + w3)
}

/// The translation of the first `k` lines: text and warnings. `#version`
/// lines are dropped, `#extension` lines dropped with a warning, other
/// lines trimmed and translated.
pub open spec fn glsl_lines_to_wgsl(ls: Seq<Seq<char>>, k: nat) -> (Seq<char>, Seq<
    (Seq<char>, Seq<char>),
>)
    decreases k,
{
    if k == 0 {
        (seq![], seq![])
    } else {
        let prev = glsl_lines_to_wgsl(ls, (k - 1) as nat);
        let t = trim(ls[k - 1]);
        if starts_with(t, "#version"@) {
            prev
        } else if starts_with(t, "#extension"@) {
            (prev.0, prev.1.push(("Extension ignored: "@ + t, "extension"@)))
        } else {
            let c = glsl_line_to_wgsl(t);
            (prev.0 + c.0 + seq!['\n'], prev.1 + c.1)
        }
    }
}

/// The WGSL for a GLSL source, and the warnings raised.
pub open spec fn glsl_to_wgsl_translation(source: Seq<char>) -> (Seq<char>, Seq<
    (Seq<char>, Seq<char>),
>) {
    let body = glsl_lines_to_wgsl(lines(source), lines(source).len());
    (size_banner("// Transpiled from GLSL\n"@, source) + body.0, body.1)
}

#[derive(Clone, Debug)]
pub struct GlslToWgslVisitor {
    output: String,
    warnings: Vec<TranspilerWarning>,
    info_log: String,
}

impl GlslToWgslVisitor {
    pub closed spec fn spec_warnings(&self) -> Seq<TranspilerWarning> {
        self.warnings@
    }

    pub closed spec fn spec_info_log(&self) -> Seq<char> {
        self.info_log@
    }

    /// The text written so far.
    pub closed spec fn spec_output(&self) -> Seq<char> {
        self.output@
    }

    pub fn new() -> (v: Self)
        ensures
            v.spec_warnings().len() == 0,
            v.spec_info_log().len() == 0,
            v.spec_output().len() == 0,
    {
        GlslToWgslVisitor { output: String::new(), warnings: Vec::new(), info_log: String::new() }
    }

    /// Translates a GLSL source to WGSL line by line; the warnings of the
    /// translation replace those recorded before.
    pub fn visit_glsl(&mut self, source: &str) -> (r: Result<String, TranspilerError>)
        ensures
            r matches Ok(s) && s@ == glsl_to_wgsl_translation(source@).0,
            warnings_view(final(self).spec_warnings()) == raised(glsl_to_wgsl_translation(source@).1),
            final(self).spec_info_log().len() == 0,
    {
        self.warnings = Vec::new();
        self.info_log = String::new();
        let mut out: Vec<char> = Vec::new();
        push_size_banner(&mut out, "// Transpiled from GLSL\n", source);
        let ghost head = out@;
        let text = chars_of(source);
        let ls = lines_exec(text.as_slice());
        let ghost lv = lines(source@);
        let mut k: usize = 0;
        assert(warnings_view(self.warnings@) =~= raised(Seq::<(Seq<char>, Seq<char>)>::empty()));
        while k < ls.len()
            invariant
                k <= ls@.len(),
                lv == lines(source@),
                ls@.len() == lv.len(),
                forall|m: int| 0 <= m < ls@.len() ==> #[trigger] ls@[m]@ == lv[m],
                out@ == head + glsl_lines_to_wgsl(lv, k as nat).0,
                warnings_view(self.warnings@) == raised(glsl_lines_to_wgsl(lv, k as nat).1),
                self.info_log@.len() == 0,
            decreases ls@.len() - k,
        {
            let t = trim_exec(ls[k].as_slice());
            let ghost before = self.warnings@;
            let ghost prev = glsl_lines_to_wgsl(lv, k as nat);
            assert(t@ == trim(lv[k as int]));
            if starts_with_str(t.as_slice(), "#version") {
            } else if starts_with_str(t.as_slice(), "#extension") {
                let mut msg: Vec<char> = Vec::new();
                push_str(&mut msg, "Extension ignored: ");
                push_chars(&mut msg, t.as_slice());
                self.add_warning(1, 1, string_of(msg.as_slice()), "extension");
                assert(glsl_lines_to_wgsl(lv, (k + 1) as nat) == (prev.0, prev.1.push(
                    ("Extension ignored: "@ + t@, "extension"@),
                )));
                assert(warnings_view(self.warnings@) =~= warnings_view(before).push(
                    (1usize, 1usize, "Extension ignored: "@ + t@, WarningSeverity::Warning, "extension"@),
                ));
                assert(warnings_view(self.warnings@) =~= raised(glsl_lines_to_wgsl(lv, (k + 1) as nat).1));
            } else {
                let converted = self.convert_glsl_line(t.as_slice());
                push_chars(&mut out, converted.as_slice());
                out.push('\n');
                assert(warnings_view(self.warnings@) =~= raised(glsl_lines_to_wgsl(lv, (k + 1) as nat).1));
            }
            k = k + 1;
            assert(out@ =~= head + glsl_lines_to_wgsl(lv, k as nat).0);
        }
        let s = string_of(out.as_slice());
        self.output = string_of(out.as_slice());
        Ok(s)
    }

    /// The warnings of the last translation.
    pub fn get_warnings(&self) -> (w: Vec<TranspilerWarning>)
        ensures
            warnings_view(w@) == warnings_view(self.spec_warnings()),
    {
        copy_warnings(&self.warnings)
    }

    /// The information log of the last translation.
    pub fn get_info_log(&self) -> (s: String)
        ensures
            s@ == self.spec_info_log(),
    {
        self.info_log.clone()
    }

    /// Translates one trimmed GLSL line and records the warnings it raises.
    fn convert_glsl_line(&mut self, line: &[char]) -> (r: Vec<char>)
        ensures
            r@ == glsl_line_to_wgsl(line@).0,
            warnings_view(final(self).warnings@) == warnings_view(old(self).warnings@) + raised(
                glsl_line_to_wgsl(line@).1,
            ),
            final(self).info_log@ == old(self).info_log@,
    {
        let table = glsl_line_table();
        let r0 = replace_each_exec(line, &table);
        let r1 = if contains_str(r0.as_slice(), "main()") && !contains_str(r0.as_slice(), "fn") {
            replace_str(r0.as_slice(), "main()", "fn main()")
        } else {
            r0
        };
        let ghost w0 = warnings_view(self.warnings@);
        let r2 = if contains_str(r1.as_slice(), "gl_Position") {
            let r = replace_str(
                r1.as_slice(),
                "gl_Position",
                "@builtin(position) var<out> position: vec4<f32>",
            );
            self.add_warning(
                1,
                1,
                string_of(chars_of("Manual gl_Position conversion required").as_slice()),
                "builtin",
            );
            r
        } else {
            r1
        };
        let ghost w1 = warnings_view(self.warnings@);
        let r3 = if contains_str(r2.as_slice(), "gl_FragColor") {
            let r = replace_str(
                r2.as_slice(),
                "gl_FragColor",
                "@location(0) var<out> fragColor: vec4<f32>",
            );
            self.add_warning(
                1,
                1,
                string_of(chars_of("Manual gl_FragColor conversion required").as_slice()),
                "builtin",
            );
            r
        } else {
            r2
        };
        assert(warnings_view(self.warnings@) =~= w0 + raised(glsl_line_to_wgsl(line@).1));
        r3
    }

    /// Records a warning.
    fn add_warning(&mut self, line: usize, column: usize, message: String, category: &str)
        ensures
            final(self).warnings@ == old(self).warnings@.push(
                TranspilerWarning {
                    line,
                    column,
                    message,
                    severity: WarningSeverity::Warning,
                    category: final(self).warnings@.last().category,
                },
            ),
            final(self).warnings@.last().category@ == category@,
            final(self).info_log@ == old(self).info_log@,
            final(self).output@ == old(self).output@,
    {
        self.warnings.push(
            TranspilerWarning {
                line,
                column,
                message,
                severity: WarningSeverity::Warning,
                category: string_of(chars_of(category).as_slice()),
            },
        );
    }
}

/// A copy of a list of warnings.
pub fn copy_warnings(ws: &Vec<TranspilerWarning>) -> (r: Vec<TranspilerWarning>)
    ensures
        warnings_view(r@) == warnings_view(ws@),
{
    let mut r: Vec<TranspilerWarning> = Vec::new();
    let mut i: usize = 0;
    while i < ws.len()
        invariant
            i <= ws@.len(),
            r@.len() == i,
            forall|m: int| 0 <= m < i ==> warning_view(#[trigger] r@[m]) == warning_view(ws@[m]),
        decreases ws@.len() - i,
    {
        let w = &ws[i];
        r.push(
            TranspilerWarning {
                line: w.line,
                column: w.column,
                message: w.message.clone(),
                severity: w.severity,
                category: w.category.clone(),
            },
        );
        i = i + 1;
    }
    assert(warnings_view(r@) =~= warnings_view(ws@));
    r
}

/// Translates GLSL to WGSL line by line.
#[derive(Clone, Debug)]
pub struct GlslToWgslTranspiler {
    visitor: GlslToWgslVisitor,
}

impl GlslToWgslTranspiler {
    /// The visitor that each translation starts from (a copy of it).
    pub closed spec fn visitor(&self) -> GlslToWgslVisitor {
        self.visitor
    }

    /// A translator whose visitor has written nothing and raised no warnings.
    pub fn new() -> (t: Self)
        ensures
            t.visitor().spec_warnings().len() == 0,
            t.visitor().spec_info_log().len() == 0,
            t.visitor().spec_output().len() == 0,
    {
        GlslToWgslTranspiler { visitor: GlslToWgslVisitor::new() }
    }

    /// Translates a GLSL source; the result carries the WGSL text, the
    /// warnings raised and the sizes of input and output.
    pub fn transpile(&self, source: &str, options: &TranspilerOptions) -> (r: Result<
        TranspilerResult,
        TranspilerError,
    >)
        ensures
            r matches Ok(t) && t.source_code@ == glsl_to_wgsl_translation(source@).0 && warnings_view(
                t.warnings@,
            ) == raised(glsl_to_wgsl_translation(source@).1) && t.info_log@.len() == 0
                && t.metadata.input_size == byte_len(source@) && t.metadata.output_size == byte_len(
                t.source_code@,
            ) && t.source_map is None && t.dependencies@.len() == 0,
    {
        let mut visitor = self.visitor.clone();
        let result = visitor.visit_glsl(source)?;
        let metadata = plain_metadata(source, result.as_str());
        Ok(
            TranspilerResult {
                source_code: result,
                source_map: None,
                dependencies: Vec::new(),
                warnings: visitor.get_warnings(),
                info_log: visitor.get_info_log(),
                metadata,
            },
        )
    }

    pub fn get_supported_source_languages(&self) -> (v: Vec<ShaderLanguage>)
        ensures
            v@ == seq![ShaderLanguage::Glsl],
    {
        let mut v: Vec<ShaderLanguage> = Vec::new();
        v.push(ShaderLanguage::Glsl);
        v
    }

    pub fn get_supported_target_languages(&self) -> (v: Vec<ShaderLanguage>)
        ensures
            v@ == seq![ShaderLanguage::Wgsl],
    {
        let mut v: Vec<ShaderLanguage> = Vec::new();
        v.push(ShaderLanguage::Wgsl);
        v
    }

    /// Only GLSL sources are accepted.
    pub fn validate_source(&self, source: &str, language: ShaderLanguage) -> (r: Result<
        (),
        TranspilerError,
    >)
        ensures
            language == ShaderLanguage::Glsl ==> r is Ok,
            language != ShaderLanguage::Glsl ==> (r matches Err(
                TranspilerError::LanguageMismatch(a, b),
            ) && a == language && b == ShaderLanguage::Glsl),
    {
        if language != ShaderLanguage::Glsl {
            return Err(TranspilerError::LanguageMismatch(language, ShaderLanguage::Glsl));
        }
        Ok(())
    }
}


// ---------------------------------------------------------------------------
// WGSL to HLSL
// ---------------------------------------------------------------------------

/// The rewrites applied to every line, in order.
pub open spec fn wgsl_to_hlsl_rewrites() -> Seq<(Seq<char>, Seq<char>)> {
    seq![
        ("vec2<f32>"@, "float2"@),
        ("vec3<f32>"@, "float3"@),
        ("vec4<f32>"@, "float4"@),
        ("mat4x4<f32>"@, "float4x4"@),
        ("f32"@, "float"@),
        ("i32"@, "int"@),
        ("u32"@, "uint"@),
        ("texture_2d"@, "Texture2D"@),
        ("sampler"@, "SamplerState"@),
        ("@group(0) @binding(0)"@, ""@),
        ("@location(0)"@, ""@),
        ("@builtin(position)"@, "SV_Position"@),
        ("@builtin(frag_coord)"@, "SV_Position"@),
    ]
}

/// WGSL types keep their shape in HLSL: each vector `vecN<f32>` becomes the
/// HLSL vector `floatN` of the same dimension `N`, the 4x4 matrix the 4x4
/// matrix, and the scalars `f32`, `i32`, `u32` the scalars of the same kind.
pub proof fn lemma_wgsl_types_keep_their_shape_in_hlsl()
    ensures
        forall|d: char| '2' <= d <= '4' ==> rewrites_to(wgsl_to_hlsl_rewrites(), "vec"@.push(d) + "<f32>"@, "float"@.push(d)),
        rewrites_to(wgsl_to_hlsl_rewrites(), "mat4x4<f32>"@, "float4x4"@),
        rewrites_to(wgsl_to_hlsl_rewrites(), "f32"@, "float"@),
        rewrites_to(wgsl_to_hlsl_rewrites(), "i32"@, "int"@),
        rewrites_to(wgsl_to_hlsl_rewrites(), "u32"@, "uint"@),
{
    let t = wgsl_to_hlsl_rewrites();
    reveal_strlit("<f32>");
    reveal_strlit("@builtin(frag_coord)");
    reveal_strlit("@builtin(position)");
    reveal_strlit("@group(0) @binding(0)");
    reveal_strlit("@location(0)");
    reveal_strlit("SV_Position");
    reveal_strlit("SamplerState");
    reveal_strlit("Texture2D");
    reveal_strlit("f32");
    reveal_strlit("float");
    reveal_strlit("float2");
    reveal_strlit("float3");
    reveal_strlit("float4");
    reveal_strlit("float4x4");
    reveal_strlit("i32");
    reveal_strlit("int");
    reveal_strlit("mat4x4<f32>");
    reveal_strlit("sampler");
    reveal_strlit("texture_2d");
    reveal_strlit("u32");
    reveal_strlit("uint");
    reveal_strlit("vec");
    reveal_strlit("vec2<f32>");
    reveal_strlit("vec3<f32>");
    reveal_strlit("vec4<f32>");
    assert forall|d: char| '2' <= d <= '4' implies rewrites_to(t, "vec"@.push(d) + "<f32>"@, "float"@.push(d)) by {
        if d == '2' {
            let pat = "vec"@.push(d) + "<f32>"@;
            assert(t[0].0 =~= pat);
            assert(t[0].1 =~= "float"@.push(d));
        } else if d == '3' {
            let pat = "vec"@.push(d) + "<f32>"@;
            assert(t[1].0 =~= pat);
            assert(t[1].1 =~= "float"@.push(d));
            assert forall|j: int| 0 <= j < 1 implies t[j].0 != pat by {
                if j == 0 {
                    assert(t[0].0[3] != pat[3]);
                }
            }
        } else {
            let pat = "vec"@.push(d) + "<f32>"@;
            assert(t[2].0 =~= pat);
            assert(t[2].1 =~= "float"@.push(d));
            assert forall|j: int| 0 <= j < 2 implies t[j].0 != pat by {
                if j == 0 {
                    assert(t[0].0[3] != pat[3]);
                } else if j == 1 {
                    assert(t[1].0[3] != pat[3]);
                }
            }
        }
    }
    {
        let pat = "mat4x4<f32>"@;
        assert(t[3].0 =~= pat);
        assert(t[3].1 =~= "float4x4"@);
        assert forall|j: int| 0 <= j < 3 implies t[j].0 != pat by {
            if j == 0 {
                assert(t[0].0.len() != pat.len());
            } else if j == 1 {
                assert(t[1].0.len() != pat.len());
            } else if j == 2 {
                assert(t[2].0.len() != pat.len());
            }
        }
    }
    {
        let pat = "f32"@;
        assert(t[4].0 =~= pat);
        assert(t[4].1 =~= "float"@);
        assert forall|j: int| 0 <= j < 4 implies t[j].0 != pat by {
            if j == 0 {
                assert(t[0].0.len() != pat.len());
            } else if j == 1 {
                assert(t[1].0.len() != pat.len());
            } else if j == 2 {
                assert(t[2].0.len() != pat.len());
            } else if j == 3 {
                assert(t[3].0.len() != pat.len());
            }
        }
    }
    {
        let pat = "i32"@;
        assert(t[5].0 =~= pat);
        assert(t[5].1 =~= "int"@);
        assert forall|j: int| 0 <= j < 5 implies t[j].0 != pat by {
            if j == 0 {
                assert(t[0].0.len() != pat.len());
            } else if j == 1 {
                assert(t[1].0.len() != pat.len());
            } else if j == 2 {
                assert(t[2].0.len() != pat.len());
            } else if j == 3 {
                assert(t[3].0.len() != pat.len());
            } else if j == 4 {
                assert(t[4].0[0] != pat[0]);
            }
        }
    }
    {
        let pat = "u32"@;
        assert(t[6].0 =~= pat);
        assert(t[6].1 =~= "uint"@);
        assert forall|j: int| 0 <= j < 6 implies t[j].0 != pat by {
            if j == 0 {
                assert(t[0].0.len() != pat.len());
            } else if j == 1 {
                assert(t[1].0.len() != pat.len());
            } else if j == 2 {
                assert(t[2].0.len() != pat.len());
            } else if j == 3 {
                assert(t[3].0.len() != pat.len());
            } else if j == 4 {
                assert(t[4].0[0] != pat[0]);
            } else if j == 5 {
                assert(t[5].0[0] != pat[0]);
            }
        }
    }
}

fn wgsl_to_hlsl_table() -> (r: Vec<(&'static str, &'static str)>)
    ensures
        pair_views(r@) == wgsl_to_hlsl_rewrites(),
{
    let mut r: Vec<(&'static str, &'static str)> = Vec::new();
    r.push(("vec2<f32>", "float2"));
    r.push(("vec3<f32>", "float3"));
    r.push(("vec4<f32>", "float4"));
    r.push(("mat4x4<f32>", "float4x4"));
    r.push(("f32", "float"));
    r.push(("i32", "int"));
    r.push(("u32", "uint"));
    r.push(("texture_2d", "Texture2D"));
    r.push(("sampler", "SamplerState"));
    r.push(("@group(0) @binding(0)", ""));
    r.push(("@location(0)", ""));
    r.push(("@builtin(position)", "SV_Position"));
    r.push(("@builtin(frag_coord)", "SV_Position"));
    assert(pair_views(r@) =~= wgsl_to_hlsl_rewrites());
    r
}

/// The translation of the first `k` lines, each rewritten and ended by a line break.
pub open spec fn wgsl_to_hlsl_lines(ls: Seq<Seq<char>>, k: nat) -> Seq<char>
    decreases k,
{
    if k == 0 {
        seq![]
    } else {
        wgsl_to_hlsl_lines(ls, (k - 1) as nat) + replace_each(ls[k - 1], wgsl_to_hlsl_rewrites()) + seq!['\n']
    }
}

/// The translation of a source.
pub open spec fn wgsl_to_hlsl_translation(source: Seq<char>) -> Seq<char> {
    size_banner("// Transpiled from WGSL to HLSL\n"@, source) + wgsl_to_hlsl_lines(lines(source), lines(source).len())
}

/// Translates line by line.
#[derive(Clone, Copy, Debug)]
pub struct WgslToHlslTranspiler {}

impl WgslToHlslTranspiler {
    pub fn new() -> (t: Self) {
        WgslToHlslTranspiler {}
    }

    /// Translates a source line by line; the result carries one note
    /// asking for manual review.
    pub fn transpile(&self, source: &str, options: &TranspilerOptions) -> (r: Result<
        TranspilerResult,
        TranspilerError,
    >)
        ensures
            r matches Ok(t) && t.source_code@ == wgsl_to_hlsl_translation(source@) && warnings_view(
                t.warnings@,
            ) == seq![
                (
                    1usize,
                    1usize,
                    "Basic WGSL to HLSL conversion - manual review required"@,
                    WarningSeverity::Info,
                    "transpiler"@,
                ),
            ] && t.info_log@ == "WGSL to HLSL transpilation completed"@ && t.metadata.input_size == byte_len(source@)
                && t.metadata.output_size == byte_len(t.source_code@) && t.source_map is None
                && t.dependencies@.len() == 0,
    {
        let mut out: Vec<char> = Vec::new();
        push_size_banner(&mut out, "// Transpiled from WGSL to HLSL\n", source);
        let ghost head = out@;
        let text = chars_of(source);
        let ls = lines_exec(text.as_slice());
        let ghost lv = lines(source@);
        let mut k: usize = 0;
        while k < ls.len()
            invariant
                k <= ls@.len(),
                lv == lines(source@),
                ls@.len() == lv.len(),
                forall|m: int| 0 <= m < ls@.len() ==> #[trigger] ls@[m]@ == lv[m],
                out@ == head + wgsl_to_hlsl_lines(lv, k as nat),
            decreases ls@.len() - k,
        {
            let converted = self.convert_wgsl_to_hlsl_line(ls[k].as_slice());
            push_chars(&mut out, converted.as_slice());
            out.push('\n');
            k = k + 1;
            assert(out@ =~= head + wgsl_to_hlsl_lines(lv, k as nat));
        }
        let output = string_of(out.as_slice());
        let metadata = plain_metadata(source, output.as_str());
        let mut warnings: Vec<TranspilerWarning> = Vec::new();
        warnings.push(
            TranspilerWarning {
                line: 1,
                column: 1,
                message: string_of(chars_of("Basic WGSL to HLSL conversion - manual review required").as_slice()),
                severity: WarningSeverity::Info,
                category: string_of(chars_of("transpiler").as_slice()),
            },
        );
        assert(warnings_view(warnings@) =~= seq![
            (
                1usize,
                1usize,
                "Basic WGSL to HLSL conversion - manual review required"@,
                WarningSeverity::Info,
                "transpiler"@,
            ),
        ]);
        Ok(
            TranspilerResult {
                source_code: output,
                source_map: None,
                dependencies: Vec::new(),
                warnings,
                info_log: string_of(chars_of("WGSL to HLSL transpilation completed").as_slice()),
                metadata,
            },
        )
    }

    pub fn get_supported_source_languages(&self) -> (v: Vec<ShaderLanguage>)
        ensures
            v@ == seq![ShaderLanguage::Wgsl],
    {
        let mut v: Vec<ShaderLanguage> = Vec::new();
        v.push(ShaderLanguage::Wgsl);
        v
    }

    pub fn get_supported_target_languages(&self) -> (v: Vec<ShaderLanguage>)
        ensures
            v@ == seq![ShaderLanguage::Hlsl],
    {
        let mut v: Vec<ShaderLanguage> = Vec::new();
        v.push(ShaderLanguage::Hlsl);
        v
    }

    /// Only WGSL sources are accepted.
    pub fn validate_source(&self, source: &str, language: ShaderLanguage) -> (r: Result<
        (),
        TranspilerError,
    >)
        ensures
            language == ShaderLanguage::Wgsl ==> r is Ok,
            language != ShaderLanguage::Wgsl ==> (r matches Err(
                TranspilerError::LanguageMismatch(a, b),
            ) && a == language && b == ShaderLanguage::Wgsl),
    {
        if language != ShaderLanguage::Wgsl {
            return Err(TranspilerError::LanguageMismatch(language, ShaderLanguage::Wgsl));
        }
        Ok(())
    }

    /// Rewrites one line.
    pub fn convert_wgsl_to_hlsl_line(&self, line: &[char]) -> (r: Vec<char>)
        ensures
            r@ == replace_each(line@, wgsl_to_hlsl_rewrites()),
    {
        let table = wgsl_to_hlsl_table();
        replace_each_exec(line, &table)
    }
}

// ---------------------------------------------------------------------------
// HLSL to WGSL
// ---------------------------------------------------------------------------

/// The rewrites applied to every line, in order.
pub open spec fn hlsl_to_wgsl_rewrites() -> Seq<(Seq<char>, Seq<char>)> {
    seq![
        ("float2"@, "vec2<f32>"@),
        ("float3"@, "vec3<f32>"@),
        ("float4"@, "vec4<f32>"@),
        ("float4x4"@, "mat4x4<f32>"@),
        ("float"@, "f32"@),
        ("int"@, "i32"@),
        ("uint"@, "u32"@),
        ("Texture2D"@, "texture_2d"@),
        ("SamplerState"@, "sampler"@),
        ("SV_Position"@, "@builtin(position)"@),
    ]
}

/// HLSL types keep their shape in WGSL: each vector type `floatN` becomes
/// the WGSL vector `vecN<f32>` of the same dimension `N`, the 4x4 matrix
/// the 4x4 matrix, and the scalar types the scalars of the same kind.
pub proof fn lemma_hlsl_types_keep_their_shape()
    ensures
        forall|d: char|
            '2' <= d <= '4' ==> rewrites_to(hlsl_to_wgsl_rewrites(), "float"@.push(d), "vec"@.push(d) + "<f32>"@),
        rewrites_to(hlsl_to_wgsl_rewrites(), "float"@ + "4x4"@, "mat"@ + "4x4"@ + "<f32>"@),
        rewrites_to(hlsl_to_wgsl_rewrites(), "float"@, "f32"@),
        rewrites_to(hlsl_to_wgsl_rewrites(), "int"@, "i32"@),
        rewrites_to(hlsl_to_wgsl_rewrites(), "uint"@, "u32"@),
{
    let t = hlsl_to_wgsl_rewrites();
    reveal_strlit("float2");
    reveal_strlit("float3");
    reveal_strlit("float4");
    reveal_strlit("float4x4");
    reveal_strlit("float");
    reveal_strlit("int");
    reveal_strlit("uint");
    reveal_strlit("vec2<f32>");
    reveal_strlit("vec3<f32>");
    reveal_strlit("vec4<f32>");
    reveal_strlit("mat4x4<f32>");
    reveal_strlit("f32");
    reveal_strlit("i32");
    reveal_strlit("u32");
    reveal_strlit("vec");
    reveal_strlit("<f32>");
    reveal_strlit("4x4");
    reveal_strlit("mat");
    assert forall|d: char| '2' <= d <= '4' implies rewrites_to(t, "float"@.push(d), "vec"@.push(d) + "<f32>"@) by {
        let i: int = if d == '2' {
            0
        } else if d == '3' {
            1
        } else {
            2
        };
        assert(t[i].0 =~= "float"@.push(d));
        assert(t[i].1 =~= "vec"@.push(d) + "<f32>"@);
        assert forall|j: int| 0 <= j < i implies t[j].0 != "float"@.push(d) by {
            assert(t[j].0[5] != d);
        }
    }
    assert(t[3].0 =~= "float"@ + "4x4"@);
    assert(t[3].1 =~= "mat"@ + "4x4"@ + "<f32>"@);
    assert forall|j: int| 0 <= j < 3 implies t[j].0 != "float"@ + "4x4"@ by {
        assert(t[j].0.len() != ("float"@ + "4x4"@).len());
    }
    assert(t[4] == ("float"@, "f32"@));
    assert forall|j: int| 0 <= j < 4 implies t[j].0 != "float"@ by {
        assert(t[j].0.len() != "float"@.len());
    }
    assert(t[5] == ("int"@, "i32"@));
    assert forall|j: int| 0 <= j < 5 implies t[j].0 != "int"@ by {
        assert(t[j].0.len() != "int"@.len());
    }
    assert(t[6] == ("uint"@, "u32"@));
    assert forall|j: int| 0 <= j < 6 implies t[j].0 != "uint"@ by {
        assert(t[j].0.len() != "uint"@.len());
    }
}

/// Translating between HLSL and WGSL keeps every type: each HLSL name that
/// the HLSL-to-WGSL rewrites replace is given back by the WGSL-to-HLSL
/// rewrites from its replacement.
pub proof fn lemma_hlsl_wgsl_rewrites_round_trip()
    ensures
        forall|i: int|
            0 <= i < hlsl_to_wgsl_rewrites().len() ==> rewrites_to(
                wgsl_to_hlsl_rewrites(),
                #[trigger] hlsl_to_wgsl_rewrites()[i].1,
                hlsl_to_wgsl_rewrites()[i].0,
            ),
{
    let h = hlsl_to_wgsl_rewrites();
    let t = wgsl_to_hlsl_rewrites();
    reveal_strlit("@builtin(frag_coord)");
    reveal_strlit("@builtin(position)");
    reveal_strlit("@group(0) @binding(0)");
    reveal_strlit("@location(0)");
    reveal_strlit("SV_Position");
    reveal_strlit("SamplerState");
    reveal_strlit("Texture2D");
    reveal_strlit("f32");
    reveal_strlit("float");
    reveal_strlit("float2");
    reveal_strlit("float3");
    reveal_strlit("float4");
    reveal_strlit("float4x4");
    reveal_strlit("i32");
    reveal_strlit("int");
    reveal_strlit("mat4x4<f32>");
    reveal_strlit("sampler");
    reveal_strlit("texture_2d");
    reveal_strlit("u32");
    reveal_strlit("uint");
    reveal_strlit("vec2<f32>");
    reveal_strlit("vec3<f32>");
    reveal_strlit("vec4<f32>");
    assert forall|i: int| 0 <= i < h.len() implies rewrites_to(t, #[trigger] h[i].1, h[i].0) by {
        if i == 0 {
            let pat = h[i].1;
            assert(t[0].0 =~= pat);
            assert(t[0].1 =~= h[i].0);
        } else if i == 1 {
            let pat = h[i].1;
            assert(t[1].0 =~= pat);
            assert(t[1].1 =~= h[i].0);
            assert forall|j: int| 0 <= j < 1 implies t[j].0 != pat by {
                if j == 0 {
                    assert(t[0].0[3] != pat[3]);
                }
            }
        } else if i == 2 {
            let pat = h[i].1;
            assert(t[2].0 =~= pat);
            assert(t[2].1 =~= h[i].0);
            assert forall|j: int| 0 <= j < 2 implies t[j].0 != pat by {
                if j == 0 {
                    assert(t[0].0[3] != pat[3]);
                } else if j == 1 {
                    assert(t[1].0[3] != pat[3]);
                }
            }
        } else if i == 3 {
            let pat = h[i].1;
            assert(t[3].0 =~= pat);
            assert(t[3].1 =~= h[i].0);
            assert forall|j: int| 0 <= j < 3 implies t[j].0 != pat by {
                if j == 0 {
                    assert(t[0].0.len() != pat.len());
                } else if j == 1 {
                    assert(t[1].0.len() != pat.len());
                } else if j == 2 {
                    assert(t[2].0.len() != pat.len());
                }
            }
        } else if i == 4 {
            let pat = h[i].1;
            assert(t[4].0 =~= pat);
            assert(t[4].1 =~= h[i].0);
            assert forall|j: int| 0 <= j < 4 implies t[j].0 != pat by {
                if j == 0 {
                    assert(t[0].0.len() != pat.len());
                } else if j == 1 {
                    assert(t[1].0.len() != pat.len());
                } else if j == 2 {
                    assert(t[2].0.len() != pat.len());
                } else if j == 3 {
                    assert(t[3].0.len() != pat.len());
                }
            }
        } else if i == 5 {
            let pat = h[i].1;
            assert(t[5].0 =~= pat);
            assert(t[5].1 =~= h[i].0);
            assert forall|j: int| 0 <= j < 5 implies t[j].0 != pat by {
                if j == 0 {
                    assert(t[0].0.len() != pat.len());
                } else if j == 1 {
                    assert(t[1].0.len() != pat.len());
                } else if j == 2 {
                    assert(t[2].0.len() != pat.len());
                } else if j == 3 {
                    assert(t[3].0.len() != pat.len());
                } else if j == 4 {
                    assert(t[4].0[0] != pat[0]);
                }
            }
        } else if i == 6 {
            let pat = h[i].1;
            assert(t[6].0 =~= pat);
            assert(t[6].1 =~= h[i].0);
            assert forall|j: int| 0 <= j < 6 implies t[j].0 != pat by {
                if j == 0 {
                    assert(t[0].0.len() != pat.len());
                } else if j == 1 {
                    assert(t[1].0.len() != pat.len());
                } else if j == 2 {
                    assert(t[2].0.len() != pat.len());
                } else if j == 3 {
                    assert(t[3].0.len() != pat.len());
                } else if j == 4 {
                    assert(t[4].0[0] != pat[0]);
                } else if j == 5 {
                    assert(t[5].0[0] != pat[0]);
                }
            }
        } else if i == 7 {
            let pat = h[i].1;
            assert(t[7].0 =~= pat);
            assert(t[7].1 =~= h[i].0);
            assert forall|j: int| 0 <= j < 7 implies t[j].0 != pat by {
                if j == 0 {
                    assert(t[0].0.len() != pat.len());
                } else if j == 1 {
                    assert(t[1].0.len() != pat.len());
                } else if j == 2 {
                    assert(t[2].0.len() != pat.len());
                } else if j == 3 {
                    assert(t[3].0.len() != pat.len());
                } else if j == 4 {
                    assert(t[4].0.len() != pat.len());
                } else if j == 5 {
                    assert(t[5].0.len() != pat.len());
                } else if j == 6 {
                    assert(t[6].0.len() != pat.len());
                }
            }
        } else if i == 8 {
            let pat = h[i].1;
            assert(t[8].0 =~= pat);
            assert(t[8].1 =~= h[i].0);
            assert forall|j: int| 0 <= j < 8 implies t[j].0 != pat by {
                if j == 0 {
                    assert(t[0].0.len() != pat.len());
                } else if j == 1 {
                    assert(t[1].0.len() != pat.len());
                } else if j == 2 {
                    assert(t[2].0.len() != pat.len());
                } else if j == 3 {
                    assert(t[3].0.len() != pat.len());
                } else if j == 4 {
                    assert(t[4].0.len() != pat.len());
                } else if j == 5 {
                    assert(t[5].0.len() != pat.len());
                } else if j == 6 {
                    assert(t[6].0.len() != pat.len());
                } else if j == 7 {
                    assert(t[7].0.len() != pat.len());
                }
            }
        } else if i == 9 {
            let pat = h[i].1;
            assert(t[11].0 =~= pat);
            assert(t[11].1 =~= h[i].0);
            assert forall|j: int| 0 <= j < 11 implies t[j].0 != pat by {
                if j == 0 {
                    assert(t[0].0.len() != pat.len());
                } else if j == 1 {
                    assert(t[1].0.len() != pat.len());
                } else if j == 2 {
                    assert(t[2].0.len() != pat.len());
                } else if j == 3 {
                    assert(t[3].0.len() != pat.len());
                } else if j == 4 {
                    assert(t[4].0.len() != pat.len());
                } else if j == 5 {
                    assert(t[5].0.len() != pat.len());
                } else if j == 6 {
                    assert(t[6].0.len() != pat.len());
                } else if j == 7 {
                    assert(t[7].0.len() != pat.len());
                } else if j == 8 {
                    assert(t[8].0.len() != pat.len());
                } else if j == 9 {
                    assert(t[9].0.len() != pat.len());
                } else if j == 10 {
                    assert(t[10].0.len() != pat.len());
                }
            }
        }
    }
}

/// No HLSL name that the rewrites replace holds a space or a semicolon.
proof fn lemma_hlsl_names_have_no_separators()
    ensures
        forall|i: int|
            0 <= i < hlsl_to_wgsl_rewrites().len() ==> !(#[trigger] hlsl_to_wgsl_rewrites()[i]).0.contains(' ')
                && !hlsl_to_wgsl_rewrites()[i].0.contains(';') && hlsl_to_wgsl_rewrites()[i].0.len() > 0,
{
    reveal_strlit("float2");
    reveal_strlit("float3");
    reveal_strlit("float4");
    reveal_strlit("float4x4");
    reveal_strlit("float");
    reveal_strlit("int");
    reveal_strlit("uint");
    reveal_strlit("Texture2D");
    reveal_strlit("SamplerState");
    reveal_strlit("SV_Position");
}

/// An HLSL vector declaration `floatN name;` becomes the WGSL declaration
/// `vecN<f32> name;` of the same dimension `N`, for every name in which no
/// HLSL name that the rewrites replace occurs.
pub proof fn lemma_hlsl_vector_declaration(d: char, name: Seq<char>)
    requires
        '2' <= d <= '4',
        forall|i: int|
            0 <= i < hlsl_to_wgsl_rewrites().len() ==> !contains(name, (#[trigger] hlsl_to_wgsl_rewrites()[i]).0),
    ensures
        replace_each("float"@.push(d) + " "@ + name + ";"@, hlsl_to_wgsl_rewrites()) == "vec"@.push(d) + "<f32>"@
            + " "@ + name + ";"@,
{
    let t = hlsl_to_wgsl_rewrites();
    lemma_hlsl_types_keep_their_shape();
    lemma_hlsl_names_have_no_separators();
    reveal_strlit(" ");
    reveal_strlit(";");
    reveal_strlit("vec");
    reveal_strlit("<f32>");
    reveal_strlit("float");
    reveal_strlit("float2");
    reveal_strlit("float3");
    reveal_strlit("float4");
    reveal_strlit("float4x4");
    reveal_strlit("int");
    reveal_strlit("uint");
    reveal_strlit("Texture2D");
    reveal_strlit("SamplerState");
    reveal_strlit("SV_Position");
    reveal_strlit("vec2<f32>");
    reveal_strlit("vec3<f32>");
    reveal_strlit("vec4<f32>");
    let pat = "float"@.push(d);
    let ty = "vec"@.push(d) + "<f32>"@;
    let k: int = if d == '2' {
        0
    } else if d == '3' {
        1
    } else {
        2
    };
    assert(t[k].0 =~= pat);
    assert(t[k].1 =~= ty);
    let tail = name + seq![';'];
    let line = pat + seq![' '] + tail;
    let out = ty + seq![' '] + tail;
    assert(line =~= "float"@.push(d) + " "@ + name + ";"@);
    assert(out =~= "vec"@.push(d) + "<f32>"@ + " "@ + name + ";"@);
    // No pattern occurs in the tail of the line.
    assert forall|i: int| 0 <= i < t.len() implies !contains(tail, (#[trigger] t[i]).0) by {
        if contains(tail, t[i].0) {
            lemma_contains_split(name, ';', Seq::<char>::empty(), t[i].0);
            assert(name + seq![';'] + Seq::<char>::empty() =~= tail);
        }
    }
    // The entries before the one for `floatN` leave the line as it is.
    assert forall|i: int| 0 <= i < k implies !contains(line, (#[trigger] t.take(k)[i]).0) by {
        assert(t.take(k)[i] == t[i]);
        if contains(line, t[i].0) {
            lemma_contains_split(pat, ' ', tail, t[i].0);
            lemma_missing_char(pat, t[i].0, 5);
        }
    }
    lemma_replace_each_absent(line, t.take(k));
    // The entry for `floatN` rewrites its leading name.
    assert(!contains(seq![' '] + tail, pat)) by {
        if contains(seq![' '] + tail, pat) {
            lemma_contains_split(Seq::<char>::empty(), ' ', tail, pat);
            assert(Seq::<char>::empty() + seq![' '] + tail =~= seq![' '] + tail);
            if contains(Seq::<char>::empty(), pat) {
                let j = choose|j: int| occurs_at(Seq::<char>::empty(), pat, j);
            }
        }
    }
    lemma_replace_all_leading(pat, seq![' '] + tail, ty);
    assert(pat + (seq![' '] + tail) =~= line);
    assert(ty + (seq![' '] + tail) =~= out);
    lemma_replace_each_split(line, t, k);
    lemma_replace_each_split(line, t.skip(k), 1);
    assert(t.skip(k).take(1) =~= seq![t[k]]);
    assert(replace_each(line, seq![t[k]]) == replace_all(replace_each(line, Seq::<(Seq<char>, Seq<char>)>::empty()), t[k].0, t[k].1)) by {
        assert(seq![t[k]].drop_last() =~= Seq::<(Seq<char>, Seq<char>)>::empty());
    }
    // The entries after it find no pattern in the declaration it wrote.
    let rest = t.skip(k).skip(1);
    assert forall|i: int| 0 <= i < rest.len() implies !contains(out, (#[trigger] rest[i]).0) by {
        let j = i + k + 1;
        assert(rest[i] == t[j]);
        if contains(out, t[j].0) {
            lemma_contains_split(ty, ' ', tail, t[j].0);
            if j == 1 || j == 2 || j == 3 {
                lemma_missing_char(ty, t[j].0, 1);
            } else if j == 4 {
                lemma_missing_char(ty, t[j].0, 1);
            } else if j == 5 || j == 6 {
                lemma_missing_char(ty, t[j].0, t[j].0.len() - 2);
            } else {
                lemma_missing_char(ty, t[j].0, 0);
            }
        }
    }
    lemma_replace_each_absent(out, rest);
}

fn hlsl_to_wgsl_table() -> (r: Vec<(&'static str, &'static str)>)
    ensures
        pair_views(r@) == hlsl_to_wgsl_rewrites(),
{
    let mut r: Vec<(&'static str, &'static str)> = Vec::new();
    r.push(("float2", "vec2<f32>"));
    r.push(("float3", "vec3<f32>"));
    r.push(("float4", "vec4<f32>"));
    r.push(("float4x4", "mat4x4<f32>"));
    r.push(("float", "f32"));
    r.push(("int", "i32"));
    r.push(("uint", "u32"));
    r.push(("Texture2D", "texture_2d"));
    r.push(("SamplerState", "sampler"));
    r.push(("SV_Position", "@builtin(position)"));
    assert(pair_views(r@) =~= hlsl_to_wgsl_rewrites());
    r
}

/// The translation of the first `k` lines, each rewritten and ended by a line break.
pub open spec fn hlsl_to_wgsl_lines(ls: Seq<Seq<char>>, k: nat) -> Seq<char>
    decreases k,
{
    if k == 0 {
        seq![]
    } else {
        hlsl_to_wgsl_lines(ls, (k - 1) as nat) + replace_each(ls[k - 1], hlsl_to_wgsl_rewrites()) + seq!['\n']
    }
}

/// The translation of a source.
pub open spec fn hlsl_to_wgsl_translation(source: Seq<char>) -> Seq<char> {
    size_banner("// Transpiled from HLSL to WGSL\n"@, source) + hlsl_to_wgsl_lines(lines(source), lines(source).len())
}

/// Translates line by line.
#[derive(Clone, Copy, Debug)]
pub struct HlslToWgslTranspiler {}

impl HlslToWgslTranspiler {
    pub fn new() -> (t: Self) {
        HlslToWgslTranspiler {}
    }

    /// Translates a source line by line; the result carries one note
    /// asking for manual review.
    pub fn transpile(&self, source: &str, options: &TranspilerOptions) -> (r: Result<
        TranspilerResult,
        TranspilerError,
    >)
        ensures
            r matches Ok(t) && t.source_code@ == hlsl_to_wgsl_translation(source@) && warnings_view(
                t.warnings@,
            ) == seq![
                (
                    1usize,
                    1usize,
                    "Basic HLSL to WGSL conversion - manual review required"@,
                    WarningSeverity::Info,
                    "transpiler"@,
                ),
            ] && t.info_log@ == "HLSL to WGSL transpilation completed"@ && t.metadata.input_size == byte_len(source@)
                && t.metadata.output_size == byte_len(t.source_code@) && t.source_map is None
                && t.dependencies@.len() == 0,
    {
        let mut out: Vec<char> = Vec::new();
        push_size_banner(&mut out, "// Transpiled from HLSL to WGSL\n", source);
        let ghost head = out@;
        let text = chars_of(source);
        let ls = lines_exec(text.as_slice());
        let ghost lv = lines(source@);
        let mut k: usize = 0;
        while k < ls.len()
            invariant
                k <= ls@.len(),
                lv == lines(source@),
                ls@.len() == lv.len(),
                forall|m: int| 0 <= m < ls@.len() ==> #[trigger] ls@[m]@ == lv[m],
                out@ == head + hlsl_to_wgsl_lines(lv, k as nat),
            decreases ls@.len() - k,
        {
            let converted = self.convert_hlsl_to_wgsl_line(ls[k].as_slice());
            push_chars(&mut out, converted.as_slice());
            out.push('\n');
            k = k + 1;
            assert(out@ =~= head + hlsl_to_wgsl_lines(lv, k as nat));
        }
        let output = string_of(out.as_slice());
        let metadata = plain_metadata(source, output.as_str());
        let mut warnings: Vec<TranspilerWarning> = Vec::new();
        warnings.push(
            TranspilerWarning {
                line: 1,
                column: 1,
                message: string_of(chars_of("Basic HLSL to WGSL conversion - manual review required").as_slice()),
                severity: WarningSeverity::Info,
                category: string_of(chars_of("transpiler").as_slice()),
            },
        );
        assert(warnings_view(warnings@) =~= seq![
            (
                1usize,
                1usize,
                "Basic HLSL to WGSL conversion - manual review required"@,
                WarningSeverity::Info,
                "transpiler"@,
            ),
        ]);
        Ok(
            TranspilerResult {
                source_code: output,
                source_map: None,
                dependencies: Vec::new(),
                warnings,
                info_log: string_of(chars_of("HLSL to WGSL transpilation completed").as_slice()),
                metadata,
            },
        )
    }

    pub fn get_supported_source_languages(&self) -> (v: Vec<ShaderLanguage>)
        ensures
            v@ == seq![ShaderLanguage::Hlsl],
    {
        let mut v: Vec<ShaderLanguage> = Vec::new();
        v.push(ShaderLanguage::Hlsl);
        v
    }

    pub fn get_supported_target_languages(&self) -> (v: Vec<ShaderLanguage>)
        ensures
            v@ == seq![ShaderLanguage::Wgsl],
    {
        let mut v: Vec<ShaderLanguage> = Vec::new();
        v.push(ShaderLanguage::Wgsl);
        v
    }

    /// Only HLSL sources are accepted.
    pub fn validate_source(&self, source: &str, language: ShaderLanguage) -> (r: Result<
        (),
        TranspilerError,
    >)
        ensures
            language == ShaderLanguage::Hlsl ==> r is Ok,
            language != ShaderLanguage::Hlsl ==> (r matches Err(
                TranspilerError::LanguageMismatch(a, b),
            ) && a == language && b == ShaderLanguage::Hlsl),
    {
        if language != ShaderLanguage::Hlsl {
            return Err(TranspilerError::LanguageMismatch(language, ShaderLanguage::Hlsl));
        }
        Ok(())
    }

    /// Rewrites one line.
    pub fn convert_hlsl_to_wgsl_line(&self, line: &[char]) -> (r: Vec<char>)
        ensures
            r@ == replace_each(line@, hlsl_to_wgsl_rewrites()),
    {
        let table = hlsl_to_wgsl_table();
        replace_each_exec(line, &table)
    }
}


// ---------------------------------------------------------------------------
// WGSL to GLSL over a syntax tree
// ---------------------------------------------------------------------------

/// A WGSL syntax tree as the GLSL writer walks it. Types and expressions are
/// kept as their source text; `Other` stands for a node kind this
/// translation does not handle, with a description of it.
#[derive(Debug)]
pub enum AstNode {
    TranslationUnit(Vec<AstNode>),
    FunctionDecl { name: String, params: Vec<AstNode>, return_type: Option<String>, body: Box<AstNode> },
    StructDecl { name: String, members: Vec<AstNode> },
    StructMember { name: String, type_label: String },
    GlobalVarDecl { name: String, type_label: String, initializer: Option<String> },
    BlockStatement(Vec<AstNode>),
    ReturnStatement(Option<String>),
    AssignmentStatement { target: String, value: String },
    IfStatement {
        condition: String,
        then_branch: Box<AstNode>,
        else_branch: Option<Box<AstNode>>,
    },
    Other(String),
}

/// Text written so far and warnings raised (message, category).
pub struct GlslOut {
    pub text: Seq<char>,
    pub warnings: Seq<(Seq<char>, Seq<char>)>,
}

/// Four spaces per indentation level.
pub open spec fn indent_text(n: nat) -> Seq<char>
    decreases n,
{
    if n == 0 {
        seq![]
    } else {
        indent_text((n - 1) as nat) + "    "@
    }
}

pub open spec fn out_write(st: GlslOut, t: Seq<char>) -> GlslOut {
    GlslOut { text: st.text + t, warnings: st.warnings }
}

pub open spec fn out_indent(st: GlslOut, ind: nat) -> GlslOut {
    out_write(st, indent_text(ind))
}

/// A line: indentation, text and a line break.
pub open spec fn out_line(st: GlslOut, ind: nat, t: Seq<char>) -> GlslOut {
    out_write(st, indent_text(ind) + t + seq!['\n'])
}

pub open spec fn out_warn(st: GlslOut, w: Seq<(Seq<char>, Seq<char>)>) -> GlslOut {
    GlslOut { text: st.text, warnings: st.warnings + w }
}

/// The GLSL spelling of a WGSL type, where one is known.
pub open spec fn glsl_type(ty: Seq<char>) -> Option<Seq<char>> {
    if ty == "f32"@ {
        Some("float"@)
    } else if ty == "i32"@ {
        Some("int"@)
    } else if ty == "u32"@ {
        Some("uint"@)
    } else if ty == "bool"@ {
        Some("bool"@)
    } else if ty == "vec2<f32>"@ {
        Some("vec2"@)
    } else if ty == "vec3<f32>"@ {
        Some("vec3"@)
    } else if ty == "vec4<f32>"@ {
        Some("vec4"@)
    } else if ty == "mat4x4<f32>"@ {
        Some("mat4"@)
    } else {
        None
    }
}

/// WGSL types keep their shape in GLSL: each vector `vecN<f32>` is written
/// as the GLSL vector `vecN` of the same dimension `N`, the 4x4 matrix as
/// `mat4`, and the scalars as the scalars of the same kind. Read back by
/// the GLSL-to-WGSL rewrites, each vector and the matrix give the WGSL type
/// again.
pub proof fn lemma_glsl_types_round_trip(d: char)
    requires
        '2' <= d <= '4',
    ensures
        glsl_type("vec"@.push(d) + "<f32>"@) == Some("vec"@.push(d)),
        rewrites_to(glsl_line_rewrites(), "vec"@.push(d), "vec"@.push(d) + "<f32>"@),
        glsl_type("mat4x4<f32>"@) == Some("mat4"@),
        rewrites_to(glsl_line_rewrites(), "mat4"@, "mat4x4<f32>"@),
        glsl_type("f32"@) == Some("float"@),
        glsl_type("i32"@) == Some("int"@),
        glsl_type("u32"@) == Some("uint"@),
{
    reveal_strlit("f32");
    reveal_strlit("i32");
    reveal_strlit("u32");
    reveal_strlit("bool");
    reveal_strlit("vec2<f32>");
    reveal_strlit("vec3<f32>");
    reveal_strlit("vec4<f32>");
    reveal_strlit("mat4x4<f32>");
    reveal_strlit("vec2");
    reveal_strlit("vec3");
    reveal_strlit("vec4");
    reveal_strlit("mat4");
    reveal_strlit("vec");
    reveal_strlit("<f32>");
    reveal_strlit("mat");
    reveal_strlit("x");
    let ty = "vec"@.push(d) + "<f32>"@;
    assert(ty.len() == 9);
    assert(ty[3] == d);
    if d == '2' {
        assert(ty =~= "vec2<f32>"@);
        assert("vec"@.push(d) =~= "vec2"@);
    } else if d == '3' {
        assert(ty =~= "vec3<f32>"@);
        assert(ty[3] != "vec2<f32>"@[3]);
        assert("vec"@.push(d) =~= "vec3"@);
    } else {
        assert(ty =~= "vec4<f32>"@);
        assert(ty[3] != "vec2<f32>"@[3]);
        assert(ty[3] != "vec3<f32>"@[3]);
        assert("vec"@.push(d) =~= "vec4"@);
    }
    assert("mat4x4<f32>"@.len() != "vec2<f32>"@.len());
    assert("i32"@[0] != "f32"@[0]);
    assert("u32"@[0] != "f32"@[0]);
    assert("u32"@[0] != "i32"@[0]);
    lemma_glsl_types_keep_their_shape();
    assert("mat4"@ =~= "mat"@.push('4'));
    assert("mat4x4<f32>"@ =~= "mat"@.push('4') + "x"@.push('4') + "<f32>"@);
}

/// Translating between GLSL and WGSL keeps every type: each type that the
/// GLSL-to-WGSL line rewrites replace (the entries after the qualifiers and
/// the texture call) is given back by the WGSL-to-GLSL type mapping.
pub proof fn lemma_glsl_wgsl_types_round_trip()
    ensures
        forall|i: int|
            4 <= i < 10 ==> glsl_type(#[trigger] glsl_line_rewrites()[i].1) == Some(glsl_line_rewrites()[i].0),
{
    let t = glsl_line_rewrites();
    reveal_strlit("f32");
    reveal_strlit("i32");
    reveal_strlit("u32");
    reveal_strlit("bool");
    reveal_strlit("vec2<f32>");
    reveal_strlit("vec3<f32>");
    reveal_strlit("vec4<f32>");
    reveal_strlit("mat4x4<f32>");
    assert("i32"@[0] != "f32"@[0]);
    assert("vec3<f32>"@[3] != "vec2<f32>"@[3]);
    assert("vec4<f32>"@[3] != "vec2<f32>"@[3]);
    assert("vec4<f32>"@[3] != "vec3<f32>"@[3]);
    assert("mat4x4<f32>"@.len() != "vec2<f32>"@.len());
    assert forall|i: int| 4 <= i < 10 implies glsl_type(#[trigger] t[i].1) == Some(t[i].0) by {
        assert(t[i].1.len() != "bool"@.len());
        if i >= 8 {
            assert(t[i].1.len() != "vec2<f32>"@.len());
        } else {
            assert(t[i].1.len() != "f32"@.len());
        }
    }
}

/// A type as written in GLSL: its GLSL spelling, or the WGSL text itself.
pub open spec fn type_text(ty: Seq<char>) -> Seq<char> {
    match glsl_type(ty) {
        Some(t) => t,
        None => ty,
    }
}

/// The warning for a type without a known GLSL spelling.
pub open spec fn type_warning(ty: Seq<char>) -> Seq<(Seq<char>, Seq<char>)> {
    match glsl_type(ty) {
        Some(_) => seq![],
        None => seq![("Unknown type mapping for: "@ + ty, "type-mapping"@)],
    }
}

/// The stage keyword for a function name.
pub open spec fn stage_text(name: Seq<char>) -> Seq<char> {
    if contains(name, "vs_"@) || contains(name, "vertex"@) {
        "vertex"@
    } else if contains(name, "fs_"@) || contains(name, "fragment"@) {
        "fragment"@
    } else if contains(name, "cs_"@) || contains(name, "compute"@) {
        "compute"@
    } else {
        ""@
    }
}

/// The effect of writing `node` at indentation `ind`.
pub open spec fn visit_spec(node: AstNode, ind: nat, st: GlslOut) -> GlslOut
    decreases node,
{
    match node {
        AstNode::TranslationUnit(items) => visit_items(
            items@,
            ind,
            out_line(out_line(st, ind, "#version 450 core"@), ind, ""@),
            true,
        ),
        AstNode::FunctionDecl { name, params, return_type, body } => {
            let s3 = out_write(
                out_write(out_indent(st, ind), stage_text(name@) + " "@),
                name@ + "("@,
            );
            let s5 = out_write(visit_params(params@, ind, s3, true), ")"@);
            let s6 = match return_type {
                Some(t) => out_write(out_warn(s5, type_warning(t@)), " -> "@ + type_text(t@)),
                None => s5,
            };
            out_line(visit_spec(*body, ind + 1, out_line(s6, ind, " {"@)), ind, "}"@)
        },
        AstNode::StructDecl { name, members } => out_line(
            visit_items(
                members@,
                ind + 1,
                out_line(out_indent(st, ind), ind, "struct "@ + name@ + " {"@),
                false,
            ),
            ind,
            "}"@,
        ),
        AstNode::StructMember { name, type_label } => out_line(
            out_warn(out_indent(st, ind), type_warning(type_label@)),
            ind,
            type_text(type_label@) + " "@ + name@ + ";"@,
        ),
        AstNode::GlobalVarDecl { name, type_label, initializer } => {
            let s3 = out_write(
                out_warn(out_indent(st, ind), type_warning(type_label@)),
                type_text(type_label@) + " "@ + name@,
            );
            let s4 = match initializer {
                Some(e) => out_write(s3, " = "@ + e@),
                None => s3,
            };
            out_line(s4, ind, ";"@)
        },
        AstNode::BlockStatement(stmts) => visit_items(stmts@, ind, st, false),
        AstNode::ReturnStatement(e) => match e {
            Some(x) => out_line(out_indent(st, ind), ind, "return "@ + x@ + ";"@),
            None => out_line(out_indent(st, ind), ind, "return;"@),
        },
        AstNode::AssignmentStatement { target, value } => out_line(
            out_indent(st, ind),
            ind,
            target@ + " = "@ + value@ + ";"@,
        ),
        AstNode::IfStatement { condition, then_branch, else_branch } => {
            let s3 = visit_spec(
                *then_branch,
                ind + 1,
                out_line(out_indent(st, ind), ind, "if ("@ + condition@ + ") {"@),
            );
            let s4 = match else_branch {
                Some(e) => visit_spec(*e, ind + 1, out_line(s3, ind, "} else {"@)),
                None => s3,
            };
            out_line(s4, ind, "}"@)
        },
        AstNode::Other(desc) => out_warn(st, seq![("Unsupported AST node: "@ + desc@, "transpiler"@)]),
    }
}

/// The effect of writing each of `nodes`, followed by an empty line when `blank`.
pub open spec fn visit_items(nodes: Seq<AstNode>, ind: nat, st: GlslOut, blank: bool) -> GlslOut
    decreases nodes,
{
    if nodes.len() == 0 {
        st
    } else {
        let s1 = visit_spec(nodes[0], ind, st);
        let s2 = if blank {
            out_line(s1, ind, ""@)
        } else {
            s1
        };
        visit_items(nodes.drop_first(), ind, s2, blank)
    }
}

/// The effect of writing parameters separated by `, `.
pub open spec fn visit_params(nodes: Seq<AstNode>, ind: nat, st: GlslOut, first: bool) -> GlslOut
    decreases nodes,
{
    if nodes.len() == 0 {
        st
    } else {
        let s1 = if first {
            st
        } else {
            out_write(st, ", "@)
        };
        visit_params(nodes.drop_first(), ind, visit_spec(nodes[0], ind, s1), false)
    }
}


/// The number of nested indentation levels that writing `node` opens.
pub open spec fn ast_depth(node: AstNode) -> nat
    decreases node,
{
    match node {
        AstNode::TranslationUnit(items) => items_depth(items@),
        AstNode::FunctionDecl { params, body, .. } => {
            let a = items_depth(params@);
            let b = 1 + ast_depth(*body);
            if a > b {
                a
            } else {
                b
            }
        },
        AstNode::StructDecl { members, .. } => 1 + items_depth(members@),
        AstNode::BlockStatement(stmts) => items_depth(stmts@),
        AstNode::IfStatement { then_branch, else_branch, .. } => {
            let a = ast_depth(*then_branch);
            let b = match else_branch {
                Some(e) => ast_depth(*e),
                None => 0,
            };
            1 + if a > b {
                a
            } else {
                b
            }
        },
        _ => 0,
    }
}

pub open spec fn items_depth(nodes: Seq<AstNode>) -> nat
    decreases nodes,
{
    if nodes.len() == 0 {
        0
    } else {
        let a = ast_depth(nodes[0]);
        let b = items_depth(nodes.drop_first());
        if a > b {
            a
        } else {
            b
        }
    }
}

proof fn lemma_items_depth(nodes: Seq<AstNode>, i: int)
    requires
        0 <= i < nodes.len(),
    ensures
        ast_depth(nodes[i]) <= items_depth(nodes),
        items_depth(nodes.subrange(i, nodes.len() as int)) <= items_depth(nodes),
    decreases i,
{
    if i > 0 {
        lemma_items_depth(nodes.drop_first(), i - 1);
        assert(nodes.drop_first()[i - 1] == nodes[i]);
        assert(nodes.drop_first().subrange(i - 1, nodes.len() - 1) =~= nodes.subrange(
            i,
            nodes.len() as int,
        ));
    } else {
        assert(nodes.subrange(0, nodes.len() as int) =~= nodes);
    }
}

/// The GLSL text written for a syntax tree, and the warnings raised.
pub open spec fn glsl_translation(ast: AstNode) -> GlslOut {
    visit_spec(ast, 0, GlslOut { text: seq![], warnings: seq![] })
}

/// Writes GLSL for a WGSL syntax tree.
#[derive(Clone, Debug)]
pub struct WgslToGlslVisitor {
    output: Vec<char>,
    warnings: Vec<TranspilerWarning>,
    info_log: String,
    indent_level: usize,
}

impl WgslToGlslVisitor {
    /// Between translations nothing is indented.
    pub closed spec fn wf(&self) -> bool {
        self.indent_level == 0
    }

    pub closed spec fn spec_warnings(&self) -> Seq<TranspilerWarning> {
        self.warnings@
    }

    pub closed spec fn spec_info_log(&self) -> Seq<char> {
        self.info_log@
    }

    /// The text written and the warnings raised are those of `st`.
    closed spec fn at(&self, st: GlslOut) -> bool {
        &&& self.output@ == st.text
        &&& warnings_view(self.warnings@) == raised(st.warnings)
    }

    /// The text written so far.
    pub closed spec fn spec_output(&self) -> Seq<char> {
        self.output@
    }

    pub fn new() -> (v: Self)
        ensures
            v.wf(),
            v.spec_warnings().len() == 0,
            v.spec_info_log().len() == 0,
            v.spec_output().len() == 0,
    {
        WgslToGlslVisitor {
            output: Vec::new(),
            warnings: Vec::new(),
            info_log: String::new(),
            indent_level: 0,
        }
    }

    /// Writes GLSL for a syntax tree; the warnings raised replace those recorded before.
    pub fn visit_ast(&mut self, ast: &AstNode) -> (r: Result<String, TranspilerError>)
        requires
            old(self).wf(),
            ast_depth(*ast) < usize::MAX,
        ensures
            final(self).wf(),
            r matches Ok(s) && s@ == glsl_translation(*ast).text,
            warnings_view(final(self).spec_warnings()) == raised(glsl_translation(*ast).warnings),
            final(self).spec_info_log().len() == 0,
    {
        self.output = Vec::new();
        self.warnings = Vec::new();
        self.info_log = String::new();
        let ghost st = GlslOut { text: seq![], warnings: seq![] };
        assert(warnings_view(self.warnings@) =~= raised(st.warnings));
        self.visit_node(ast, Ghost(st))?;
        Ok(string_of(self.output.as_slice()))
    }

    pub fn get_warnings(&self) -> (w: Vec<TranspilerWarning>)
        ensures
            warnings_view(w@) == warnings_view(self.spec_warnings()),
    {
        copy_warnings(&self.warnings)
    }

    pub fn get_info_log(&self) -> (s: String)
        ensures
            s@ == self.spec_info_log(),
    {
        self.info_log.clone()
    }

    /// Writes one node at the current indentation.
    #[verifier::spinoff_prover]
    #[verifier::rlimit(60)]
    fn visit_node(&mut self, node: &AstNode, Ghost(st): Ghost<GlslOut>) -> (r: Result<
        (),
        TranspilerError,
    >)
        requires
            old(self).indent_level + ast_depth(*node) < usize::MAX,
            old(self).at(st),
        ensures
            r is Ok,
            final(self).indent_level == old(self).indent_level,
            final(self).info_log@ == old(self).info_log@,
            final(self).at(visit_spec(*node, old(self).indent_level as nat, st)),
        decreases node,
    {
        let ghost ind = self.indent_level as nat;
        match node {
            AstNode::TranslationUnit(items) => {
                self.write_line_str("#version 450 core");
                self.write_line_str("");
                let ghost s2 = out_line(out_line(st, ind, "#version 450 core"@), ind, ""@);
                assert(self.output@ =~= s2.text);
                assert(self.at(s2));
                self.visit_all(items, true, Ghost(s2));
            },
            AstNode::FunctionDecl { name, params, return_type, body } => {
                let nm = chars_of(name.as_str());
                self.write_indent();
                let stage = self.map_shader_stage(nm.as_slice());
                self.write(stage.as_slice());
                self.write_str(" ");
                self.write(nm.as_slice());
                self.write_str("(");
                let ghost s3 = out_write(
                    out_write(out_indent(st, ind), stage_text(name@) + " "@),
                    name@ + "("@,
                );
                assert(self.output@ =~= s3.text);
                assert(self.at(s3));
                proof {
                    assert(items_depth(params@) <= ast_depth(*node));
                }
                self.visit_params_all(params, Ghost(s3));
                self.write_str(")");
                let ghost s5 = out_write(visit_params(params@, ind, s3, true), ")"@);
                assert(self.output@ =~= s5.text);
                assert(self.at(s5));
                match return_type {
                    Some(t) => {
                        let tc = chars_of(t.as_str());
                        let mapped = self.map_type(tc.as_slice(), Ghost(s5));
                        self.write_str(" -> ");
                        self.write(mapped.as_slice());
                    },
                    None => {},
                }
                let ghost s6 = match return_type {
                    Some(t) => out_write(out_warn(s5, type_warning(t@)), " -> "@ + type_text(t@)),
                    None => s5,
                };
                assert(self.output@ =~= s6.text);
                assert(self.at(s6));
                self.write_line_str(" {");
                let ghost s7 = out_line(s6, ind, " {"@);
                assert(self.output@ =~= s7.text);
                assert(self.at(s7));
                self.indent_level = self.indent_level + 1;
                self.visit_node(body, Ghost(s7))?;
                self.indent_level = self.indent_level - 1;
                self.write_line_str("}");
            },
            AstNode::StructDecl { name, members } => {
                self.write_indent();
                let mut head: Vec<char> = Vec::new();
                push_str(&mut head, "struct ");
                push_str(&mut head, name.as_str());
                push_str(&mut head, " {");
                self.write_line(head.as_slice());
                let ghost s2 = out_line(out_indent(st, ind), ind, "struct "@ + name@ + " {"@);
                assert(self.output@ =~= s2.text);
                assert(self.at(s2));
                self.indent_level = self.indent_level + 1;
                self.visit_all(members, false, Ghost(s2));
                self.indent_level = self.indent_level - 1;
                self.write_line_str("}");
            },
            AstNode::StructMember { name, type_label } => {
                self.write_indent();
                let tc = chars_of(type_label.as_str());
                let ghost s1 = out_indent(st, ind);
                assert(self.output@ =~= s1.text);
                assert(self.at(s1));
                let mapped = self.map_type(tc.as_slice(), Ghost(s1));
                let mut line: Vec<char> = Vec::new();
                push_chars(&mut line, mapped.as_slice());
                push_str(&mut line, " ");
                push_str(&mut line, name.as_str());
                push_str(&mut line, ";");
                self.write_line(line.as_slice());
            },
            AstNode::GlobalVarDecl { name, type_label, initializer } => {
                self.write_indent();
                let tc = chars_of(type_label.as_str());
                let ghost s1 = out_indent(st, ind);
                assert(self.output@ =~= s1.text);
                assert(self.at(s1));
                let mapped = self.map_type(tc.as_slice(), Ghost(s1));
                let mut decl: Vec<char> = Vec::new();
                push_chars(&mut decl, mapped.as_slice());
                push_str(&mut decl, " ");
                push_str(&mut decl, name.as_str());
                self.write(decl.as_slice());
                match initializer {
                    Some(e) => {
                        let ec = chars_of(e.as_str());
                        let mapped_e = self.map_expression(ec.as_slice());
                        self.write_str(" = ");
                        self.write(mapped_e.as_slice());
                    },
                    None => {},
                }
                self.write_line_str(";");
            },
            AstNode::BlockStatement(stmts) => {
                self.visit_all(stmts, false, Ghost(st));
            },
            AstNode::ReturnStatement(e) => {
                self.write_indent();
                match e {
                    Some(x) => {
                        let xc = chars_of(x.as_str());
                        let mapped = self.map_expression(xc.as_slice());
                        let mut line: Vec<char> = Vec::new();
                        push_str(&mut line, "return ");
                        push_chars(&mut line, mapped.as_slice());
                        push_str(&mut line, ";");
                        self.write_line(line.as_slice());
                    },
                    None => {
                        self.write_line_str("return;");
                    },
                }
            },
            AstNode::AssignmentStatement { target, value } => {
                self.write_indent();
                let tc = chars_of(target.as_str());
                let vc = chars_of(value.as_str());
                let mt = self.map_expression(tc.as_slice());
                let mv = self.map_expression(vc.as_slice());
                let mut line: Vec<char> = Vec::new();
                push_chars(&mut line, mt.as_slice());
                push_str(&mut line, " = ");
                push_chars(&mut line, mv.as_slice());
                push_str(&mut line, ";");
                self.write_line(line.as_slice());
            },
            AstNode::IfStatement { condition, then_branch, else_branch } => {
                self.write_indent();
                let cc = chars_of(condition.as_str());
                let mc = self.map_expression(cc.as_slice());
                let mut line: Vec<char> = Vec::new();
                push_str(&mut line, "if (");
                push_chars(&mut line, mc.as_slice());
                push_str(&mut line, ") {");
                self.write_line(line.as_slice());
                let ghost s2 = out_line(out_indent(st, ind), ind, "if ("@ + condition@ + ") {"@);
                assert(self.output@ =~= s2.text);
                assert(self.at(s2));
                self.indent_level = self.indent_level + 1;
                self.visit_node(then_branch, Ghost(s2))?;
                self.indent_level = self.indent_level - 1;
                let ghost s3 = visit_spec(**then_branch, ind + 1, s2);
                match else_branch {
                    Some(e) => {
                        self.write_line_str("} else {");
                        let ghost s4 = out_line(s3, ind, "} else {"@);
                        assert(self.output@ =~= s4.text);
                        assert(self.at(s4));
                        self.indent_level = self.indent_level + 1;
                        self.visit_node(e, Ghost(s4))?;
                        self.indent_level = self.indent_level - 1;
                    },
                    None => {},
                }
                self.write_line_str("}");
            },
            AstNode::Other(desc) => {
                let mut msg: Vec<char> = Vec::new();
                push_str(&mut msg, "Unsupported AST node: ");
                push_str(&mut msg, desc.as_str());
                self.add_warning(1, 1, string_of(msg.as_slice()), "transpiler");
                assert(warnings_view(self.warnings@) =~= raised(
                    st.warnings + seq![("Unsupported AST node: "@ + desc@, "transpiler"@)],
                ));
            },
        }
        proof {
            let fin = visit_spec(*node, ind, st);
            assert(self.output@ =~= fin.text);
        }
        Ok(())
    }

    /// Writes each node of `items`, each followed by an empty line when `blank`.
    fn visit_all(&mut self, items: &Vec<AstNode>, blank: bool, Ghost(st): Ghost<GlslOut>)
        requires
            old(self).indent_level + items_depth(items@) < usize::MAX,
            old(self).at(st),
        ensures
            final(self).indent_level == old(self).indent_level,
            final(self).info_log@ == old(self).info_log@,
            final(self).at(visit_items(items@, old(self).indent_level as nat, st, blank)),
        decreases items@,
    {
        let ghost ind = self.indent_level as nat;
        let ghost target = visit_items(items@, ind, st, blank);
        let ghost mut cur = st;
        let mut i: usize = 0;
        assert(items@.subrange(0, items@.len() as int) =~= items@);
        while i < items.len()
            invariant
                i <= items@.len(),
                self.indent_level == ind,
                ind + items_depth(items@) < usize::MAX,
                self.info_log@ == old(self).info_log@,
                self.at(cur),
                target == visit_items(items@.subrange(i as int, items@.len() as int), ind, cur, blank),
            decreases items@.len() - i,
        {
            proof {
                lemma_items_depth(items@, i as int);
            }
            let ghost sub = items@.subrange(i as int, items@.len() as int);
            assert(sub[0] == items@[i as int]);
            assert(sub.drop_first() =~= items@.subrange(i + 1, items@.len() as int));
            let _ = self.visit_node(&items[i], Ghost(cur));
            proof {
                cur = visit_spec(items@[i as int], ind, cur);
            }
            if blank {
                self.write_line_str("");
                proof {
                    cur = out_line(cur, ind, ""@);
                }
                assert(self.output@ =~= cur.text);
            }
            i = i + 1;
        }
        assert(items@.subrange(i as int, items@.len() as int) =~= Seq::<AstNode>::empty());
    }

    /// Writes parameters separated by `, `.
    fn visit_params_all(&mut self, items: &Vec<AstNode>, Ghost(st): Ghost<GlslOut>)
        requires
            old(self).indent_level + items_depth(items@) < usize::MAX,
            old(self).at(st),
        ensures
            final(self).indent_level == old(self).indent_level,
            final(self).info_log@ == old(self).info_log@,
            final(self).at(visit_params(items@, old(self).indent_level as nat, st, true)),
        decreases items@,
    {
        let ghost ind = self.indent_level as nat;
        let ghost target = visit_params(items@, ind, st, true);
        let ghost mut cur = st;
        let mut i: usize = 0;
        assert(items@.subrange(0, items@.len() as int) =~= items@);
        while i < items.len()
            invariant
                i <= items@.len(),
                self.indent_level == ind,
                ind + items_depth(items@) < usize::MAX,
                self.info_log@ == old(self).info_log@,
                self.at(cur),
                target == visit_params(
                    items@.subrange(i as int, items@.len() as int),
                    ind,
                    cur,
                    i == 0,
                ),
            decreases items@.len() - i,
        {
            proof {
                lemma_items_depth(items@, i as int);
            }
            let ghost sub = items@.subrange(i as int, items@.len() as int);
            assert(sub[0] == items@[i as int]);
            assert(sub.drop_first() =~= items@.subrange(i + 1, items@.len() as int));
            if i > 0 {
                self.write_str(", ");
                proof {
                    cur = out_write(cur, ", "@);
                }
                assert(self.output@ =~= cur.text);
            }
            let _ = self.visit_node(&items[i], Ghost(cur));
            proof {
                cur = visit_spec(items@[i as int], ind, cur);
            }
            i = i + 1;
        }
        assert(items@.subrange(i as int, items@.len() as int) =~= Seq::<AstNode>::empty());
    }

    /// The stage keyword for a function name.
    fn map_shader_stage(&self, name: &[char]) -> (r: Vec<char>)
        ensures
            r@ == stage_text(name@),
    {
        let s = if contains_str(name, "vs_") || contains_str(name, "vertex") {
            "vertex"
        } else if contains_str(name, "fs_") || contains_str(name, "fragment") {
            "fragment"
        } else if contains_str(name, "cs_") || contains_str(name, "compute") {
            "compute"
        } else {
            ""
        };
        chars_of(s)
    }

    /// The GLSL spelling of a type; an unknown type is kept and raises a warning.
    fn map_type(&mut self, ty: &[char], Ghost(st): Ghost<GlslOut>) -> (r: Vec<char>)
        requires
            old(self).at(st),
        ensures
            r@ == type_text(ty@),
            final(self).at(out_warn(st, type_warning(ty@))),
            final(self).indent_level == old(self).indent_level,
            final(self).info_log@ == old(self).info_log@,
    {
        let known = if crate::text::eq_str(ty, "f32") {
            Some("float")
        } else if crate::text::eq_str(ty, "i32") {
            Some("int")
        } else if crate::text::eq_str(ty, "u32") {
            Some("uint")
        } else if crate::text::eq_str(ty, "bool") {
            Some("bool")
        } else if crate::text::eq_str(ty, "vec2<f32>") {
            Some("vec2")
        } else if crate::text::eq_str(ty, "vec3<f32>") {
            Some("vec3")
        } else if crate::text::eq_str(ty, "vec4<f32>") {
            Some("vec4")
        } else if crate::text::eq_str(ty, "mat4x4<f32>") {
            Some("mat4")
        } else {
            None
        };
        match known {
            Some(t) => {
                assert(out_warn(st, type_warning(ty@)).warnings =~= st.warnings);
                chars_of(t)
            },
            None => {
                let mut msg: Vec<char> = Vec::new();
                push_str(&mut msg, "Unknown type mapping for: ");
                push_chars(&mut msg, ty);
                self.add_warning(1, 1, string_of(msg.as_slice()), "type-mapping");
                assert(warnings_view(self.warnings@) =~= raised(out_warn(st, type_warning(ty@)).warnings));
                crate::text::to_vec(ty)
            },
        }
    }

    /// Expressions are written as they are.
    fn map_expression(&self, expr: &[char]) -> (r: Vec<char>)
        ensures
            r@ == expr@,
    {
        crate::text::to_vec(expr)
    }

    fn write(&mut self, text: &[char])
        ensures
            final(self).output@ == old(self).output@ + text@,
            final(self).warnings@ == old(self).warnings@,
            final(self).indent_level == old(self).indent_level,
            final(self).info_log@ == old(self).info_log@,
    {
        push_chars(&mut self.output, text);
    }

    fn write_str(&mut self, text: &str)
        ensures
            final(self).output@ == old(self).output@ + text@,
            final(self).warnings@ == old(self).warnings@,
            final(self).indent_level == old(self).indent_level,
            final(self).info_log@ == old(self).info_log@,
    {
        push_str(&mut self.output, text);
    }

    /// Writes the indentation, the text and a line break.
    fn write_line(&mut self, text: &[char])
        ensures
            final(self).output@ == old(self).output@ + indent_text(old(self).indent_level as nat)
                + text@ + seq!['\n'],
            final(self).warnings@ == old(self).warnings@,
            final(self).indent_level == old(self).indent_level,
            final(self).info_log@ == old(self).info_log@,
    {
        self.write_indent();
        push_chars(&mut self.output, text);
        self.output.push('\n');
        assert(self.output@ =~= old(self).output@ + indent_text(old(self).indent_level as nat)
            + text@ + seq!['\n']);
    }

    fn write_line_str(&mut self, text: &str)
        ensures
            final(self).output@ == old(self).output@ + indent_text(old(self).indent_level as nat)
                + text@ + seq!['\n'],
            final(self).warnings@ == old(self).warnings@,
            final(self).indent_level == old(self).indent_level,
            final(self).info_log@ == old(self).info_log@,
    {
        let t = chars_of(text);
        self.write_line(t.as_slice());
    }

    /// Writes four spaces per indentation level.
    fn write_indent(&mut self)
        ensures
            final(self).output@ == old(self).output@ + indent_text(old(self).indent_level as nat),
            final(self).warnings@ == old(self).warnings@,
            final(self).indent_level == old(self).indent_level,
            final(self).info_log@ == old(self).info_log@,
    {
        let mut k: usize = 0;
        while k < self.indent_level
            invariant
                k <= self.indent_level,
                self.indent_level == old(self).indent_level,
                self.warnings@ == old(self).warnings@,
                self.info_log@ == old(self).info_log@,
                self.output@ == old(self).output@ + indent_text(k as nat),
            decreases self.indent_level - k,
        {
            push_str(&mut self.output, "    ");
            k = k + 1;
            assert(self.output@ =~= old(self).output@ + indent_text(k as nat));
        }
    }

    /// Records a warning.
    fn add_warning(&mut self, line: usize, column: usize, message: String, category: &str)
        ensures
            warnings_view(final(self).warnings@) == warnings_view(old(self).warnings@).push(
                (line, column, message@, WarningSeverity::Warning, category@),
            ),
            final(self).output@ == old(self).output@,
            final(self).indent_level == old(self).indent_level,
            final(self).info_log@ == old(self).info_log@,
    {
        self.warnings.push(
            TranspilerWarning {
                line,
                column,
                message,
                severity: WarningSeverity::Warning,
                category: string_of(chars_of(category).as_slice()),
            },
        );
        assert(warnings_view(self.warnings@) =~= warnings_view(old(self).warnings@).push(
            (line, column, message@, WarningSeverity::Warning, category@),
        ));
    }
}


/// The members of a struct as (name, type) pairs; other nodes are skipped.
pub open spec fn member_pairs(ms: Seq<AstNode>) -> Seq<(Seq<char>, Seq<char>)>
    decreases ms.len(),
{
    if ms.len() == 0 {
        seq![]
    } else {
        member_pairs(ms.drop_last()) + match ms.last() {
            AstNode::StructMember { name, type_label } => seq![(name@, type_label@)],
            _ => seq![],
        }
    }
}

/// The uniform blocks of a tree's top-level items: the structs whose name
/// starts with `Uniforms`, with their members.
pub open spec fn uniform_blocks_of(items: Seq<AstNode>) -> Seq<(Seq<char>, Seq<(Seq<char>, Seq<char>)>)>
    decreases items.len(),
{
    if items.len() == 0 {
        seq![]
    } else {
        uniform_blocks_of(items.drop_last()) + match items.last() {
            AstNode::StructDecl { name, members } => if starts_with(name@, "Uniforms"@) {
                seq![(name@, member_pairs(members@))]
            } else {
                seq![]
            },
            _ => seq![],
        }
    }
}

/// The texture bindings of a tree's top-level items: the global variables
/// whose type mentions `texture` or `Texture`, as (name, type) pairs.
pub open spec fn texture_bindings_of(items: Seq<AstNode>) -> Seq<(Seq<char>, Seq<char>)>
    decreases items.len(),
{
    if items.len() == 0 {
        seq![]
    } else {
        texture_bindings_of(items.drop_last()) + match items.last() {
            AstNode::GlobalVarDecl { name, type_label, .. } => if contains(type_label@, "texture"@)
                || contains(type_label@, "Texture"@) {
                seq![(name@, type_label@)]
            } else {
                seq![]
            },
            _ => seq![],
        }
    }
}

pub open spec fn top_items(ast: AstNode) -> Seq<AstNode> {
    match ast {
        AstNode::TranslationUnit(items) => items@,
        _ => seq![],
    }
}

/// A uniform block as (name, members), with binding, set and size zero and
/// every member at offset zero, of size zero and not an array.
pub open spec fn block_view(b: UniformBlockInfo) -> (Seq<char>, Seq<(Seq<char>, Seq<char>)>) {
    (b.name@, b.members@.map_values(|m: UniformMemberInfo| (m.name@, m.type_label@)))
}

pub open spec fn block_zeroed(b: UniformBlockInfo) -> bool {
    &&& b.binding == 0 && b.set == 0 && b.size == 0
    &&& forall|j: int|
        0 <= j < b.members@.len() ==> (#[trigger] b.members@[j]).offset == 0 && b.members@[j].size
            == 0 && b.members@[j].array_size is None
}

/// A texture binding as (name, type), at binding and set zero with float samples.
pub open spec fn texture_view(t: TextureBindingInfo) -> (Seq<char>, Seq<char>) {
    (t.name@, t.texture_type@)
}

pub open spec fn texture_plain(t: TextureBindingInfo) -> bool {
    t.binding == 0 && t.set == 0 && t.sample_type@ == "float"@
}

/// The metadata facts taken from a syntax tree.
pub open spec fn metadata_matches(m: TranspilerMetadata, ast: AstNode) -> bool {
    &&& m.uniform_blocks@.map_values(|b: UniformBlockInfo| block_view(b)) == uniform_blocks_of(
        top_items(ast),
    )
    &&& forall|i: int| 0 <= i < m.uniform_blocks@.len() ==> block_zeroed(#[trigger] m.uniform_blocks@[i])
    &&& m.texture_bindings@.map_values(|t: TextureBindingInfo| texture_view(t))
        == texture_bindings_of(top_items(ast))
    &&& forall|i: int|
        0 <= i < m.texture_bindings@.len() ==> texture_plain(#[trigger] m.texture_bindings@[i])
}

/// Translates a WGSL syntax tree to GLSL.
#[derive(Clone, Debug)]
pub struct WgslToGlslTranspiler {
    visitor: WgslToGlslVisitor,
}

impl WgslToGlslTranspiler {
    /// The visitor that each translation starts from (a copy of it).
    pub closed spec fn visitor(&self) -> WgslToGlslVisitor {
        self.visitor
    }

    /// A translator whose visitor has written nothing, raised no warnings
    /// and indents nothing.
    pub fn new() -> (t: Self)
        ensures
            t.visitor().wf(),
            t.visitor().spec_warnings().len() == 0,
            t.visitor().spec_info_log().len() == 0,
            t.visitor().spec_output().len() == 0,
    {
        WgslToGlslTranspiler { visitor: WgslToGlslVisitor::new() }
    }

    /// Translates the syntax tree of the WGSL text `source`; the result carries
    /// the GLSL text, the warnings raised, the sizes, and the uniform blocks
    /// and texture bindings found among the tree's top-level items.
    pub fn transpile_ast(&self, ast: &AstNode, source: &str) -> (r: Result<
        TranspilerResult,
        TranspilerError,
    >)
        requires
            ast_depth(*ast) < usize::MAX,
        ensures
            r matches Ok(t) && t.source_code@ == glsl_translation(*ast).text && warnings_view(
                t.warnings@,
            ) == raised(glsl_translation(*ast).warnings) && t.info_log@.len() == 0
                && t.metadata.input_size == byte_len(source@) && t.metadata.output_size == byte_len(
                t.source_code@,
            ) && metadata_matches(t.metadata, *ast) && t.source_map is None
                && t.dependencies@.len() == 0,
    {
        let mut visitor = WgslToGlslVisitor::new();
        let result = visitor.visit_ast(ast)?;
        let metadata = self.extract_metadata(ast, source, result.as_str())?;
        Ok(
            TranspilerResult {
                source_code: result,
                source_map: None,
                dependencies: Vec::new(),
                warnings: visitor.get_warnings(),
                info_log: visitor.get_info_log(),
                metadata,
            },
        )
    }

    pub fn get_supported_source_languages(&self) -> (v: Vec<ShaderLanguage>)
        ensures
            v@ == seq![ShaderLanguage::Wgsl],
    {
        let mut v: Vec<ShaderLanguage> = Vec::new();
        v.push(ShaderLanguage::Wgsl);
        v
    }

    pub fn get_supported_target_languages(&self) -> (v: Vec<ShaderLanguage>)
        ensures
            v@ == seq![ShaderLanguage::Glsl],
    {
        let mut v: Vec<ShaderLanguage> = Vec::new();
        v.push(ShaderLanguage::Glsl);
        v
    }

    /// Only WGSL sources are accepted.
    pub fn validate_source(&self, source: &str, language: ShaderLanguage) -> (r: Result<
        (),
        TranspilerError,
    >)
        ensures
            language == ShaderLanguage::Wgsl ==> r is Ok,
            language != ShaderLanguage::Wgsl ==> (r matches Err(
                TranspilerError::LanguageMismatch(a, b),
            ) && a == language && b == ShaderLanguage::Wgsl),
    {
        if language != ShaderLanguage::Wgsl {
            return Err(TranspilerError::LanguageMismatch(language, ShaderLanguage::Wgsl));
        }
        Ok(())
    }

    fn extract_metadata(&self, ast: &AstNode, source: &str, result: &str) -> (r: Result<
        TranspilerMetadata,
        TranspilerError,
    >)
        ensures
            r matches Ok(m) && m.input_size == byte_len(source@) && m.output_size == byte_len(
                result@,
            ) && m.transpile_time_us == 0 && m.optimization_passes@.len() == 0
                && m.used_extensions@.len() == 0 && metadata_matches(m, *ast),
    {
        let mut metadata = plain_metadata(source, result);
        assert(metadata.uniform_blocks@.map_values(|b: UniformBlockInfo| block_view(b)) =~= seq![]);
        assert(metadata.texture_bindings@.map_values(|t: TextureBindingInfo| texture_view(t)) =~= seq![]);
        self.extract_uniform_blocks(ast, &mut metadata)?;
        self.extract_texture_bindings(ast, &mut metadata)?;
        Ok(metadata)
    }

    fn extract_uniform_blocks(&self, ast: &AstNode, metadata: &mut TranspilerMetadata) -> (r: Result<
        (),
        TranspilerError,
    >)
        requires
            old(metadata).uniform_blocks@.len() == 0,
        ensures
            r is Ok,
            final(metadata).uniform_blocks@.map_values(|b: UniformBlockInfo| block_view(b))
                == uniform_blocks_of(top_items(*ast)),
            forall|i: int|
                0 <= i < final(metadata).uniform_blocks@.len() ==> block_zeroed(
                    #[trigger] final(metadata).uniform_blocks@[i],
                ),
            final(metadata).texture_bindings@ == old(metadata).texture_bindings@,
            final(metadata).input_size == old(metadata).input_size,
            final(metadata).output_size == old(metadata).output_size,
            final(metadata).transpile_time_us == old(metadata).transpile_time_us,
            final(metadata).optimization_passes@ == old(metadata).optimization_passes@,
            final(metadata).used_extensions@ == old(metadata).used_extensions@,
    {
        let ghost items = top_items(*ast);
        assert(metadata.uniform_blocks@.map_values(|b: UniformBlockInfo| block_view(b)) =~= seq![]);
        match ast {
            AstNode::TranslationUnit(items) => {
                let mut i: usize = 0;
                assert(items@.subrange(0, 0) =~= Seq::<AstNode>::empty());
                while i < items.len()
                    invariant
                        i <= items@.len(),
                        metadata.uniform_blocks@.map_values(|b: UniformBlockInfo| block_view(b))
                            == uniform_blocks_of(items@.subrange(0, i as int)),
                        forall|k: int|
                            0 <= k < metadata.uniform_blocks@.len() ==> block_zeroed(
                                #[trigger] metadata.uniform_blocks@[k],
                            ),
                        metadata.texture_bindings@ == old(metadata).texture_bindings@,
                        metadata.input_size == old(metadata).input_size,
                        metadata.output_size == old(metadata).output_size,
                        metadata.transpile_time_us == old(metadata).transpile_time_us,
                        metadata.optimization_passes@ == old(metadata).optimization_passes@,
                        metadata.used_extensions@ == old(metadata).used_extensions@,
                    decreases items@.len() - i,
                {
                    let ghost before = metadata.uniform_blocks@;
                    assert(items@.subrange(0, i + 1).drop_last() =~= items@.subrange(0, i as int));
                    assert(items@.subrange(0, i + 1).last() == items@[i as int]);
                    if let AstNode::StructDecl { name, members } = &items[i] {
                        let nm = chars_of(name.as_str());
                        if starts_with_str(nm.as_slice(), "Uniforms") {
                            let block = uniform_block(name, members);
                            metadata.uniform_blocks.push(block);
                            assert(metadata.uniform_blocks@.map_values(
                                |b: UniformBlockInfo| block_view(b),
                            ) =~= before.map_values(|b: UniformBlockInfo| block_view(b)).push(
                                block_view(block),
                            ));
                        } else {
                            assert(metadata.uniform_blocks@ == before);
                        }
                    }
                    i = i + 1;
                    assert(metadata.uniform_blocks@.map_values(|b: UniformBlockInfo| block_view(b))
                        =~= uniform_blocks_of(items@.subrange(0, i as int)));
                }
                assert(items@.subrange(0, items@.len() as int) =~= items@);
            },
            _ => {},
        }
        Ok(())
    }

    fn extract_texture_bindings(&self, ast: &AstNode, metadata: &mut TranspilerMetadata) -> (r: Result<
        (),
        TranspilerError,
    >)
        requires
            old(metadata).texture_bindings@.len() == 0,
        ensures
            r is Ok,
            final(metadata).texture_bindings@.map_values(|t: TextureBindingInfo| texture_view(t))
                == texture_bindings_of(top_items(*ast)),
            forall|i: int|
                0 <= i < final(metadata).texture_bindings@.len() ==> texture_plain(
                    #[trigger] final(metadata).texture_bindings@[i],
                ),
            final(metadata).uniform_blocks@ == old(metadata).uniform_blocks@,
            final(metadata).input_size == old(metadata).input_size,
            final(metadata).output_size == old(metadata).output_size,
            final(metadata).transpile_time_us == old(metadata).transpile_time_us,
            final(metadata).optimization_passes@ == old(metadata).optimization_passes@,
            final(metadata).used_extensions@ == old(metadata).used_extensions@,
    {
        assert(metadata.texture_bindings@.map_values(|t: TextureBindingInfo| texture_view(t)) =~= seq![]);
        match ast {
            AstNode::TranslationUnit(items) => {
                let mut i: usize = 0;
                assert(items@.subrange(0, 0) =~= Seq::<AstNode>::empty());
                while i < items.len()
                    invariant
                        i <= items@.len(),
                        metadata.texture_bindings@.map_values(|t: TextureBindingInfo| texture_view(t))
                            == texture_bindings_of(items@.subrange(0, i as int)),
                        forall|k: int|
                            0 <= k < metadata.texture_bindings@.len() ==> texture_plain(
                                #[trigger] metadata.texture_bindings@[k],
                            ),
                        metadata.uniform_blocks@ == old(metadata).uniform_blocks@,
                        metadata.input_size == old(metadata).input_size,
                        metadata.output_size == old(metadata).output_size,
                        metadata.transpile_time_us == old(metadata).transpile_time_us,
                        metadata.optimization_passes@ == old(metadata).optimization_passes@,
                        metadata.used_extensions@ == old(metadata).used_extensions@,
                    decreases items@.len() - i,
                {
                    let ghost before = metadata.texture_bindings@;
                    assert(items@.subrange(0, i + 1).drop_last() =~= items@.subrange(0, i as int));
                    assert(items@.subrange(0, i + 1).last() == items@[i as int]);
                    if let AstNode::GlobalVarDecl { name, type_label, .. } = &items[i] {
                        let tc = chars_of(type_label.as_str());
                        if contains_str(tc.as_slice(), "texture") || contains_str(tc.as_slice(), "Texture") {
                            let binding = TextureBindingInfo {
                                name: name.clone(),
                                binding: 0,
                                set: 0,
                                texture_type: type_label.clone(),
                                sample_type: string_of(chars_of("float").as_slice()),
                            };
                            metadata.texture_bindings.push(binding);
                            assert(metadata.texture_bindings@.map_values(
                                |t: TextureBindingInfo| texture_view(t),
                            ) =~= before.map_values(|t: TextureBindingInfo| texture_view(t)).push(
                                texture_view(binding),
                            ));
                        }
                    }
                    i = i + 1;
                    assert(metadata.texture_bindings@.map_values(|t: TextureBindingInfo| texture_view(t))
                        =~= texture_bindings_of(items@.subrange(0, i as int)));
                }
                assert(items@.subrange(0, items@.len() as int) =~= items@);
            },
            _ => {},
        }
        Ok(())
    }
}

/// The uniform block for a struct: its name and its member declarations.
fn uniform_block(name: &String, members: &Vec<AstNode>) -> (b: UniformBlockInfo)
    ensures
        block_view(b) == (name@, member_pairs(members@)),
        block_zeroed(b),
{
    let mut ms: Vec<UniformMemberInfo> = Vec::new();
    let mut j: usize = 0;
    assert(members@.subrange(0, 0) =~= Seq::<AstNode>::empty());
    assert(ms@.map_values(|m: UniformMemberInfo| (m.name@, m.type_label@)) =~= seq![]);
    while j < members.len()
        invariant
            j <= members@.len(),
            ms@.map_values(|m: UniformMemberInfo| (m.name@, m.type_label@)) == member_pairs(
                members@.subrange(0, j as int),
            ),
            forall|k: int|
                0 <= k < ms@.len() ==> (#[trigger] ms@[k]).offset == 0 && ms@[k].size == 0
                    && ms@[k].array_size is None,
        decreases members@.len() - j,
    {
        let ghost before = ms@;
        assert(members@.subrange(0, j + 1).drop_last() =~= members@.subrange(0, j as int));
        assert(members@.subrange(0, j + 1).last() == members@[j as int]);
        if let AstNode::StructMember { name: member_name, type_label } = &members[j] {
            let m = UniformMemberInfo {
                name: member_name.clone(),
                type_label: type_label.clone(),
                offset: 0,
                size: 0,
                array_size: None,
            };
            ms.push(m);
            assert(ms@.map_values(|m: UniformMemberInfo| (m.name@, m.type_label@)) =~= before.map_values(
                |m: UniformMemberInfo| (m.name@, m.type_label@),
            ).push((m.name@, m.type_label@)));
        }
        j = j + 1;
        assert(ms@.map_values(|m: UniformMemberInfo| (m.name@, m.type_label@)) =~= member_pairs(
            members@.subrange(0, j as int),
        ));
    }
    assert(members@.subrange(0, members@.len() as int) =~= members@);
    let b = UniformBlockInfo { name: name.clone(), binding: 0, set: 0, size: 0, members: ms };
    assert(block_view(b).1 =~= member_pairs(members@));
    b
}


// ---------------------------------------------------------------------------
// Translators by language pair
// ---------------------------------------------------------------------------

/// A translator from one shading language to another.
pub trait ShaderTranspiler: Send + Sync {
    /// Whether `r` is a result this translator gives for `source` under `options`.
    spec fn translates(&self, source: Seq<char>, options: TranspilerOptions, r: Result<TranspilerResult, TranspilerError>) -> bool;

    fn transpile(&self, source: &str, options: &TranspilerOptions) -> (r: Result<TranspilerResult, TranspilerError>)
        ensures
            self.translates(source@, *options, r),
    ;

    fn get_supported_source_languages(&self) -> Vec<ShaderLanguage>;

    fn get_supported_target_languages(&self) -> Vec<ShaderLanguage>;

    fn validate_source(&self, source: &str, language: ShaderLanguage) -> Result<(), TranspilerError>;
}

/// The result of translating GLSL to WGSL, as `GlslToWgslTranspiler::transpile` gives it.
pub open spec fn glsl_to_wgsl_outcome(source: Seq<char>, r: Result<TranspilerResult, TranspilerError>) -> bool {
    r matches Ok(t) && t.source_code@ == glsl_to_wgsl_translation(source).0 && warnings_view(t.warnings@)
        == raised(glsl_to_wgsl_translation(source).1) && t.info_log@.len() == 0 && t.metadata.input_size
        == byte_len(source) && t.metadata.output_size == byte_len(t.source_code@) && t.source_map is None
        && t.dependencies@.len() == 0
}

/// The result of translating WGSL to HLSL, as `WgslToHlslTranspiler::transpile` gives it.
pub open spec fn wgsl_to_hlsl_outcome(source: Seq<char>, r: Result<TranspilerResult, TranspilerError>) -> bool {
    r matches Ok(t) && t.source_code@ == wgsl_to_hlsl_translation(source) && warnings_view(t.warnings@)
        == seq![
        (
            1usize,
            1usize,
            "Basic WGSL to HLSL conversion - manual review required"@,
            WarningSeverity::Info,
            "transpiler"@,
        ),
    ] && t.info_log@ == "WGSL to HLSL transpilation completed"@ && t.metadata.input_size == byte_len(source)
        && t.metadata.output_size == byte_len(t.source_code@) && t.source_map is None && t.dependencies@.len()
        == 0
}

/// The result of translating HLSL to WGSL, as `HlslToWgslTranspiler::transpile` gives it.
pub open spec fn hlsl_to_wgsl_outcome(source: Seq<char>, r: Result<TranspilerResult, TranspilerError>) -> bool {
    r matches Ok(t) && t.source_code@ == hlsl_to_wgsl_translation(source) && warnings_view(t.warnings@)
        == seq![
        (
            1usize,
            1usize,
            "Basic HLSL to WGSL conversion - manual review required"@,
            WarningSeverity::Info,
            "transpiler"@,
        ),
    ] && t.info_log@ == "HLSL to WGSL transpilation completed"@ && t.metadata.input_size == byte_len(source)
        && t.metadata.output_size == byte_len(t.source_code@) && t.source_map is None && t.dependencies@.len()
        == 0
}

/// A source language check that accepts `expected` only, refusing any
/// other language with a mismatch against `expected`.
pub open spec fn accepts_only(language: ShaderLanguage, expected: ShaderLanguage, r: Result<(), TranspilerError>) -> bool {
    &&& language == expected ==> r is Ok
    &&& language != expected ==> (r matches Err(TranspilerError::LanguageMismatch(a, b)) && a == language && b
        == expected)
}

impl ShaderTranspiler for GlslToWgslTranspiler {
    open spec fn translates(&self, source: Seq<char>, options: TranspilerOptions, r: Result<TranspilerResult, TranspilerError>) -> bool {
        glsl_to_wgsl_outcome(source, r)
    }

    fn transpile(&self, source: &str, options: &TranspilerOptions) -> (r: Result<TranspilerResult, TranspilerError>)
        ensures
            glsl_to_wgsl_outcome(source@, r),
    {
        GlslToWgslTranspiler::transpile(self, source, options)
    }

    fn get_supported_source_languages(&self) -> (v: Vec<ShaderLanguage>)
        ensures
            v@ == seq![ShaderLanguage::Glsl],
    {
        GlslToWgslTranspiler::get_supported_source_languages(self)
    }

    fn get_supported_target_languages(&self) -> (v: Vec<ShaderLanguage>)
        ensures
            v@ == seq![ShaderLanguage::Wgsl],
    {
        GlslToWgslTranspiler::get_supported_target_languages(self)
    }

    fn validate_source(&self, source: &str, language: ShaderLanguage) -> (r: Result<(), TranspilerError>)
        ensures
            accepts_only(language, ShaderLanguage::Glsl, r),
    {
        GlslToWgslTranspiler::validate_source(self, source, language)
    }
}

impl ShaderTranspiler for WgslToHlslTranspiler {
    open spec fn translates(&self, source: Seq<char>, options: TranspilerOptions, r: Result<TranspilerResult, TranspilerError>) -> bool {
        wgsl_to_hlsl_outcome(source, r)
    }

    fn transpile(&self, source: &str, options: &TranspilerOptions) -> (r: Result<TranspilerResult, TranspilerError>)
        ensures
            wgsl_to_hlsl_outcome(source@, r),
    {
        WgslToHlslTranspiler::transpile(self, source, options)
    }

    fn get_supported_source_languages(&self) -> (v: Vec<ShaderLanguage>)
        ensures
            v@ == seq![ShaderLanguage::Wgsl],
    {
        WgslToHlslTranspiler::get_supported_source_languages(self)
    }

    fn get_supported_target_languages(&self) -> (v: Vec<ShaderLanguage>)
        ensures
            v@ == seq![ShaderLanguage::Hlsl],
    {
        WgslToHlslTranspiler::get_supported_target_languages(self)
    }

    fn validate_source(&self, source: &str, language: ShaderLanguage) -> (r: Result<(), TranspilerError>)
        ensures
            accepts_only(language, ShaderLanguage::Wgsl, r),
    {
        WgslToHlslTranspiler::validate_source(self, source, language)
    }
}

impl ShaderTranspiler for HlslToWgslTranspiler {
    open spec fn translates(&self, source: Seq<char>, options: TranspilerOptions, r: Result<TranspilerResult, TranspilerError>) -> bool {
        hlsl_to_wgsl_outcome(source, r)
    }

    fn transpile(&self, source: &str, options: &TranspilerOptions) -> (r: Result<TranspilerResult, TranspilerError>)
        ensures
            hlsl_to_wgsl_outcome(source@, r),
    {
        HlslToWgslTranspiler::transpile(self, source, options)
    }

    fn get_supported_source_languages(&self) -> (v: Vec<ShaderLanguage>)
        ensures
            v@ == seq![ShaderLanguage::Hlsl],
    {
        HlslToWgslTranspiler::get_supported_source_languages(self)
    }

    fn get_supported_target_languages(&self) -> (v: Vec<ShaderLanguage>)
        ensures
            v@ == seq![ShaderLanguage::Wgsl],
    {
        HlslToWgslTranspiler::get_supported_target_languages(self)
    }

    fn validate_source(&self, source: &str, language: ShaderLanguage) -> (r: Result<(), TranspilerError>)
        ensures
            accepts_only(language, ShaderLanguage::Hlsl, r),
    {
        HlslToWgslTranspiler::validate_source(self, source, language)
    }
}

/// The position of the translator registered for a language pair.
pub open spec fn pair_index(pairs: Seq<(ShaderLanguage, ShaderLanguage)>, key: (ShaderLanguage, ShaderLanguage)) -> Option<int>
    decreases pairs.len(),
{
    if pairs.len() == 0 {
        None
    } else if pairs.last() == key {
        Some(pairs.len() - 1)
    } else {
        pair_index(pairs.drop_last(), key)
    }
}

/// The result of a translation, optimized when the options ask for it.
pub open spec fn optimized_when_asked(r: Result<TranspilerResult, TranspilerError>, options: TranspilerOptions) -> bool {
    options.optimize_code ==> (r matches Ok(t) ==> t.metadata.optimization_passes@.map_values(|s: String| s@)
        == seq!["applied"@, "applied"@])
}

/// What a translation gives once it has passed through the optimizer:
/// the same text, warnings, log and metadata, with the two passes recorded.
pub open spec fn optimized_from(o: TranspilerResult, t: TranspilerResult) -> bool {
    o.source_code@ == t.source_code@ && o.warnings@ == t.warnings@ && o.info_log@ == t.info_log@
        && o.metadata.optimization_passes@.map_values(|s: String| s@) == seq!["applied"@, "applied"@]
        && o.metadata.input_size == t.metadata.input_size && o.metadata.output_size == t.metadata.output_size
        && o.metadata.transpile_time_us == t.metadata.transpile_time_us && o.metadata.used_extensions@
        == t.metadata.used_extensions@ && o.metadata.uniform_blocks@ == t.metadata.uniform_blocks@
        && o.metadata.texture_bindings@ == t.metadata.texture_bindings@ && o.source_map == t.source_map
        && o.dependencies@ == t.dependencies@
}

/// The result returned for a translator's result `t`: an error as it is; a
/// translation as it is, or optimized when the options ask for it.
pub open spec fn passed_on(
    t: Result<TranspilerResult, TranspilerError>,
    r: Result<TranspilerResult, TranspilerError>,
    options: TranspilerOptions,
) -> bool {
    match t {
        Ok(x) => if options.optimize_code {
            r matches Ok(y) && optimized_from(y, x)
        } else {
            r == t
        },
        Err(_) => r == t,
    }
}

/// The position that a registration for `key` takes among `conversions`:
/// that of the pair when it is there already, else the next one.
pub open spec fn registration_index(
    conversions: Seq<(ShaderLanguage, ShaderLanguage)>,
    key: (ShaderLanguage, ShaderLanguage),
) -> int {
    match pair_index(conversions, key) {
        Some(j) => j,
        None => conversions.len() as int,
    }
}

/// Which translator handles a registered pair: one of the three built-in
/// translators, or the `k`-th translator registered by a caller.
#[derive(Clone, Copy, Debug, PartialEq, Eq, Structural)]
pub enum TranslatorSlot {
    GlslToWgsl,
    WgslToHlsl,
    HlslToWgsl,
    Registered(usize),
}

/// Translates between any registered pair of languages: validates the source
/// when asked, picks the translator for the pair, and optimizes when asked.
pub struct MultiFormatTranspiler {
    pairs: Vec<(ShaderLanguage, ShaderLanguage)>,
    slots: Vec<TranslatorSlot>,
    glsl_to_wgsl: GlslToWgslTranspiler,
    wgsl_to_hlsl: WgslToHlslTranspiler,
    hlsl_to_wgsl: HlslToWgslTranspiler,
    registered: Vec<Box<dyn ShaderTranspiler>>,
    validator: ShaderValidator,
    optimizer: ShaderOptimizer,
}

impl MultiFormatTranspiler {
    /// The language pairs with a translator, in order of registration.
    pub closed spec fn conversions(&self) -> Seq<(ShaderLanguage, ShaderLanguage)> {
        self.pairs@
    }

    /// The translator of each pair, in the order of `conversions`.
    pub closed spec fn slots(&self) -> Seq<TranslatorSlot> {
        self.slots@
    }

    /// How many translators callers have registered.
    pub closed spec fn registered_count(&self) -> nat {
        self.registered@.len()
    }

    /// One translator per pair; a registered one is among those held.
    pub closed spec fn wf(&self) -> bool {
        &&& self.slots@.len() == self.pairs@.len()
        &&& forall|j: int|
            0 <= j < self.slots@.len() ==> (#[trigger] self.slots@[j] matches TranslatorSlot::Registered(k) ==> k
                < self.registered@.len())
    }

    /// Whether `r` is a result that the `k`-th registered translator gives
    /// for `source` under `options`.
    pub closed spec fn registered_translates(
        &self,
        k: int,
        source: Seq<char>,
        options: TranspilerOptions,
        r: Result<TranspilerResult, TranspilerError>,
    ) -> bool {
        self.registered@[k].translates(source, options, r)
    }

    /// Whether `r` is a result that the translator of the pair at position
    /// `j` gives for `source` under `options`.
    pub open spec fn translates_at(
        &self,
        j: int,
        source: Seq<char>,
        options: TranspilerOptions,
        r: Result<TranspilerResult, TranspilerError>,
    ) -> bool {
        match self.slots()[j] {
            TranslatorSlot::GlslToWgsl => glsl_to_wgsl_outcome(source, r),
            TranslatorSlot::WgslToHlsl => wgsl_to_hlsl_outcome(source, r),
            TranslatorSlot::HlslToWgsl => hlsl_to_wgsl_outcome(source, r),
            TranslatorSlot::Registered(k) => self.registered_translates(k as int, source, options, r),
        }
    }

    /// For a registered pair, `r` comes from a result of the pair's
    /// translator on the source and options, passed on (and optimized when
    /// asked for); an unregistered pair asks nothing here.
    pub open spec fn routed(&self, source: Seq<char>, options: TranspilerOptions, r: Result<TranspilerResult, TranspilerError>) -> bool {
        match pair_index(self.conversions(), (options.source_language, options.target_language)) {
            Some(j) => exists|t: Result<TranspilerResult, TranspilerError>|
                #[trigger] self.translates_at(j, source, options, t) && passed_on(t, r, options),
            None => true,
        }
    }

    /// Translators for GLSL to WGSL, WGSL to HLSL and HLSL to WGSL. WGSL
    /// text is not read into a syntax tree by this library, so no WGSL to
    /// GLSL translator is registered: that translation starts from a tree,
    /// through `WgslToGlslTranspiler::transpile_ast`.
    pub fn new() -> (m: Self)
        ensures
            m.wf(),
            m.conversions() == seq![
                (ShaderLanguage::Glsl, ShaderLanguage::Wgsl),
                (ShaderLanguage::Wgsl, ShaderLanguage::Hlsl),
                (ShaderLanguage::Hlsl, ShaderLanguage::Wgsl),
            ],
            m.slots() == seq![TranslatorSlot::GlslToWgsl, TranslatorSlot::WgslToHlsl, TranslatorSlot::HlslToWgsl],
            m.registered_count() == 0,
            forall|s: Seq<char>, o: TranspilerOptions, r: Result<TranspilerResult, TranspilerError>|
                #[trigger] m.translates_at(0, s, o, r) == glsl_to_wgsl_outcome(s, r),
            forall|s: Seq<char>, o: TranspilerOptions, r: Result<TranspilerResult, TranspilerError>|
                #[trigger] m.translates_at(1, s, o, r) == wgsl_to_hlsl_outcome(s, r),
            forall|s: Seq<char>, o: TranspilerOptions, r: Result<TranspilerResult, TranspilerError>|
                #[trigger] m.translates_at(2, s, o, r) == hlsl_to_wgsl_outcome(s, r),
    {
        let mut pairs: Vec<(ShaderLanguage, ShaderLanguage)> = Vec::new();
        pairs.push((ShaderLanguage::Glsl, ShaderLanguage::Wgsl));
        pairs.push((ShaderLanguage::Wgsl, ShaderLanguage::Hlsl));
        pairs.push((ShaderLanguage::Hlsl, ShaderLanguage::Wgsl));
        let mut slots: Vec<TranslatorSlot> = Vec::new();
        slots.push(TranslatorSlot::GlslToWgsl);
        slots.push(TranslatorSlot::WgslToHlsl);
        slots.push(TranslatorSlot::HlslToWgsl);
        let m = MultiFormatTranspiler {
            pairs,
            slots,
            glsl_to_wgsl: GlslToWgslTranspiler::new(),
            wgsl_to_hlsl: WgslToHlslTranspiler::new(),
            hlsl_to_wgsl: HlslToWgslTranspiler::new(),
            registered: Vec::new(),
            validator: ShaderValidator::new(),
            optimizer: ShaderOptimizer::new(),
        };
        assert(m.conversions() =~= seq![
            (ShaderLanguage::Glsl, ShaderLanguage::Wgsl),
            (ShaderLanguage::Wgsl, ShaderLanguage::Hlsl),
            (ShaderLanguage::Hlsl, ShaderLanguage::Wgsl),
        ]);
        assert(m.slots() =~= seq![TranslatorSlot::GlslToWgsl, TranslatorSlot::WgslToHlsl, TranslatorSlot::HlslToWgsl]);
        m
    }

    fn position(&self, key: (ShaderLanguage, ShaderLanguage)) -> (r: Option<usize>)
        ensures
            match r {
                Some(j) => pair_index(self.conversions(), key) == Some(j as int) && j < self.pairs@.len(),
                None => pair_index(self.conversions(), key) is None,
            },
    {
        let ghost cv = self.conversions();
        let mut i = self.pairs.len();
        assert(cv.subrange(0, i as int) =~= cv);
        while i > 0
            invariant
                i <= self.pairs@.len(),
                cv == self.conversions(),
                pair_index(cv, key) == pair_index(cv.subrange(0, i as int), key),
            decreases i,
        {
            assert(cv.subrange(0, i as int).drop_last() =~= cv.subrange(0, i - 1));
            assert(cv.subrange(0, i as int).last() == self.pairs@[i - 1]);
            let k = self.pairs[i - 1];
            if k.0 == key.0 && k.1 == key.1 {
                return Some(i - 1);
            }
            i = i - 1;
        }
        assert(cv.subrange(0, 0) =~= Seq::<(ShaderLanguage, ShaderLanguage)>::empty());
        None
    }

    /// Registers the translator for a language pair, replacing the one
    /// registered for it before: the pair's slot becomes the new
    /// translator, which is held after those registered before it.
    pub fn register_transpiler(&mut self, source: ShaderLanguage, target: ShaderLanguage, transpiler: Box<dyn ShaderTranspiler>)
        requires
            old(self).wf(),
            old(self).registered_count() < usize::MAX,
        ensures
            final(self).wf(),
            final(self).conversions() == match pair_index(old(self).conversions(), (source, target)) {
                Some(_) => old(self).conversions(),
                None => old(self).conversions().push((source, target)),
            },
            final(self).registered_count() == old(self).registered_count() + 1,
            final(self).slots() == match pair_index(old(self).conversions(), (source, target)) {
                Some(j) => old(self).slots().update(j, TranslatorSlot::Registered(old(self).registered_count() as usize)),
                None => old(self).slots().push(TranslatorSlot::Registered(old(self).registered_count() as usize)),
            },
            forall|src: Seq<char>, o: TranspilerOptions, r: Result<TranspilerResult, TranspilerError>|
                #[trigger] final(self).registered_translates(old(self).registered_count() as int, src, o, r)
                    == transpiler.translates(src, o, r),
            forall|k: int, src: Seq<char>, o: TranspilerOptions, r: Result<TranspilerResult, TranspilerError>|
                0 <= k < old(self).registered_count() ==> #[trigger] final(self).registered_translates(k, src, o, r)
                    == old(self).registered_translates(k, src, o, r),
            forall|src: Seq<char>, o: TranspilerOptions, r: Result<TranspilerResult, TranspilerError>|
                #[trigger] final(self).translates_at(
                    registration_index(old(self).conversions(), (source, target)),
                    src,
                    o,
                    r,
                ) == transpiler.translates(src, o, r),
            forall|j: int, src: Seq<char>, o: TranspilerOptions, r: Result<TranspilerResult, TranspilerError>|
                0 <= j < old(self).conversions().len() && j != registration_index(
                    old(self).conversions(),
                    (source, target),
                ) ==> #[trigger] final(self).translates_at(j, src, o, r) == old(self).translates_at(j, src, o, r),
    {
        let k = self.registered.len();
        // The element type of `added` is left to inference: the translator
        // then moves in as it is, with no coercion of the trait object.
        let mut added = Vec::new();
        added.push(transpiler);
        self.registered.append(&mut added);
        assert(self.registered@[k as int] == transpiler);
        match self.position((source, target)) {
            Some(j) => {
                self.slots.set(j, TranslatorSlot::Registered(k));
            },
            None => {
                self.pairs.push((source, target));
                self.slots.push(TranslatorSlot::Registered(k));
            },
        }
    }

    /// Translates a source: a source that fails validation (when validation
    /// is asked for) is refused, a pair without a translator is a language
    /// mismatch; otherwise the source and options go to the translator
    /// registered for the pair, and its result is returned, optimized when
    /// asked for.
    pub fn transpile(&self, source: &str, options: &TranspilerOptions) -> (r: Result<TranspilerResult, TranspilerError>)
        requires
            self.wf(),
        ensures
            options.validate_semantics && validation_outcome(source@) is Some ==> (r matches Err(
                TranspilerError::ValidationError(e),
            ) && Some(e@) == validation_outcome(source@)),
            !(options.validate_semantics && validation_outcome(source@) is Some) && pair_index(
                self.conversions(),
                (options.source_language, options.target_language),
            ) is None ==> (r matches Err(TranspilerError::LanguageMismatch(a, b)) && a == options.source_language
                && b == options.target_language),
            !(options.validate_semantics && validation_outcome(source@) is Some) ==> self.routed(
                source@,
                *options,
                r,
            ),
            optimized_when_asked(r, *options),
    {
        if options.validate_semantics {
            match self.validator.validate_source(source, options.source_language) {
                Ok(()) => {},
                Err(e) => {
                    return Err(e);
                },
            }
        }
        let j = match self.position((options.source_language, options.target_language)) {
            Some(j) => j,
            None => {
                return Err(TranspilerError::LanguageMismatch(options.source_language, options.target_language));
            },
        };
        let result = match self.slots[j] {
            TranslatorSlot::GlslToWgsl => self.glsl_to_wgsl.transpile(source, options),
            TranslatorSlot::WgslToHlsl => self.wgsl_to_hlsl.transpile(source, options),
            TranslatorSlot::HlslToWgsl => self.hlsl_to_wgsl.transpile(source, options),
            TranslatorSlot::Registered(k) => self.registered[k].transpile(source, options),
        };
        let ghost res = result;
        assert(self.translates_at(j as int, source@, *options, res));
        let out = match result {
            Ok(t) => {
                if options.optimize_code {
                    let o = self.optimizer.optimize(t, options);
                    o
                } else {
                    Ok(t)
                }
            },
            Err(e) => Err(e),
        };
        assert(passed_on(res, out, *options));
        assert(pair_index(self.conversions(), (options.source_language, options.target_language)) == Some(j as int));
        assert(exists|t: Result<TranspilerResult, TranspilerError>|
            #[trigger] self.translates_at(j as int, source@, *options, t) && passed_on(t, out, *options)) by {
            assert(self.translates_at(j as int, source@, *options, res) && passed_on(res, out, *options));
        }
        proof {
            let ghost key = (options.source_language, options.target_language);
            let ghost jj = pair_index(self.conversions(), key)->0;
            assert(jj == j as int);
            assert(exists|t: Result<TranspilerResult, TranspilerError>|
                #[trigger] self.translates_at(jj, source@, *options, t) && passed_on(t, out, *options));
        }
        assert(self.routed(source@, *options, out));
        out
    }

    /// The language pairs with a translator, in order of registration.
    pub fn get_supported_conversions(&self) -> (v: Vec<(ShaderLanguage, ShaderLanguage)>)
        ensures
            v@ == self.conversions(),
    {
        let mut v: Vec<(ShaderLanguage, ShaderLanguage)> = Vec::new();
        let mut i: usize = 0;
        while i < self.pairs.len()
            invariant
                i <= self.pairs@.len(),
                v@ == self.conversions().subrange(0, i as int),
            decreases self.pairs@.len() - i,
        {
            v.push(self.pairs[i]);
            assert(v@ =~= self.conversions().subrange(0, i + 1));
            i = i + 1;
        }
        assert(self.conversions().subrange(0, i as int) =~= self.conversions());
        v
    }
}

} // verus!
