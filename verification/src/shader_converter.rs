//! Conversion of ISF shaders to WGSL, and of WGSL to GLSL and HLSL, by
//! textual rewriting.
use vstd::prelude::*;
use crate::text::{
    chars_of, contains, contains_str, find, find_exec, lemma_find, lines, lines_exec, nat_text,
    pair_views, push_chars, push_nat, push_str, replace_all, replace_each, replace_each_exec,
    replace_str, rewrites_to, string_of, sub_vec, trim, trim_exec, eq_chars,
};

verus! {

#[derive(Clone, Copy, Debug, PartialEq, Eq, Structural)]
pub enum InputType {
    Float,
    Bool,
    Color,
    Point2D,
    Image,
}

#[derive(Clone, Copy, Debug, PartialEq, Eq, Structural)]
pub enum OutputType {
    Image,
    Float,
}

#[derive(Clone, Debug)]
pub struct ShaderOutput {
    pub name: String,
    pub output_type: OutputType,
}

/// An input of an ISF shader, as far as code generation needs it: its name and type.
#[derive(Clone, Debug)]
pub struct ShaderInput {
    pub name: String,
    pub input_type: InputType,
}

/// An ISF shader: a JSON header comment followed by GLSL code, and its inputs and outputs.
#[derive(Clone, Debug)]
pub struct IsfShader {
    pub name: String,
    pub source: String,
    pub inputs: Vec<ShaderInput>,
    pub outputs: Vec<ShaderOutput>,
}

/// The message of the error for WGSL without a `fn main(` body.
pub const NO_BODY_MESSAGE: &'static str = "Could not extract WGSL main function body";

// ---------------------------------------------------------------------------
// ISF to WGSL
// ---------------------------------------------------------------------------

/// The GLSL rewrites applied to the code of an ISF shader, in order.
pub open spec fn isf_rewrites() -> Seq<(Seq<char>, Seq<char>)> {
    seq![
        ("void main()"@, "fn main()"@),
        ("gl_FragCoord"@, "vec4<f32>(vec2<f32>(coords), 0.0, 1.0)"@),
        ("texture2D"@, "textureSample"@),
        ("vec2("@, "vec2<f32>("@),
        ("vec3("@, "vec3<f32>("@),
        ("vec4("@, "vec4<f32>("@),
        ("float("@, "f32("@),
        ("int("@, "i32("@),
        ("bool("@, "bool("@),
        ("mix("@, "mix<f32>("@),
        ("clamp("@, "clamp<f32>("@),
        ("sin("@, "sin<f32>("@),
        ("cos("@, "cos<f32>("@),
        ("tan("@, "tan<f32>("@),
        ("pow("@, "pow<f32>("@),
        ("exp("@, "exp<f32>("@),
        ("log("@, "log<f32>("@),
        ("sqrt("@, "sqrt<f32>("@),
        ("abs("@, "abs<f32>("@),
        ("floor("@, "floor<f32>("@),
        ("ceil("@, "ceil<f32>("@),
        ("fract("@, "fract<f32>("@),
        ("mod("@, "f32("@),
    ]
}

/// The GLSL calls that WGSL writes with an `f32` type argument: the vector
/// constructors and the numeric built-in functions.
pub open spec fn typed_calls() -> Seq<Seq<char>> {
    seq!["vec2"@, "vec3"@, "vec4"@, "mix"@, "clamp"@, "sin"@, "cos"@, "tan"@, "pow"@, "exp"@, "log"@, "sqrt"@, "abs"@, "floor"@, "ceil"@, "fract"@]
}

/// Each GLSL built-in call keeps its function name in WGSL and gains the
/// `<f32>` type argument: `f(` is rewritten to `f<f32>(` for the vector
/// constructors vec2, vec3 and vec4 and for the functions mix, clamp, sin,
/// cos, tan, pow, exp, log, sqrt, abs, floor, ceil and fract.
pub proof fn lemma_isf_calls_keep_their_name()
    ensures
        forall|f: Seq<char>|
            typed_calls().contains(f) ==> rewrites_to(
                isf_rewrites(),
                f + "("@,
                f + "<f32>("@,
            ),
{
    let t = isf_rewrites();
    let names = typed_calls();
    reveal_strlit("(");
    reveal_strlit("<f32>(");
    reveal_strlit("abs");
    reveal_strlit("abs(");
    reveal_strlit("abs<f32>(");
    reveal_strlit("bool(");
    reveal_strlit("ceil");
    reveal_strlit("ceil(");
    reveal_strlit("ceil<f32>(");
    reveal_strlit("clamp");
    reveal_strlit("clamp(");
    reveal_strlit("clamp<f32>(");
    reveal_strlit("cos");
    reveal_strlit("cos(");
    reveal_strlit("cos<f32>(");
    reveal_strlit("exp");
    reveal_strlit("exp(");
    reveal_strlit("exp<f32>(");
    reveal_strlit("f32(");
    reveal_strlit("float(");
    reveal_strlit("floor");
    reveal_strlit("floor(");
    reveal_strlit("floor<f32>(");
    reveal_strlit("fn main()");
    reveal_strlit("fract");
    reveal_strlit("fract(");
    reveal_strlit("fract<f32>(");
    reveal_strlit("gl_FragCoord");
    reveal_strlit("i32(");
    reveal_strlit("int(");
    reveal_strlit("log");
    reveal_strlit("log(");
    reveal_strlit("log<f32>(");
    reveal_strlit("mix");
    reveal_strlit("mix(");
    reveal_strlit("mix<f32>(");
    reveal_strlit("mod(");
    reveal_strlit("pow");
    reveal_strlit("pow(");
    reveal_strlit("pow<f32>(");
    reveal_strlit("sin");
    reveal_strlit("sin(");
    reveal_strlit("sin<f32>(");
    reveal_strlit("sqrt");
    reveal_strlit("sqrt(");
    reveal_strlit("sqrt<f32>(");
    reveal_strlit("tan");
    reveal_strlit("tan(");
    reveal_strlit("tan<f32>(");
    reveal_strlit("texture2D");
    reveal_strlit("textureSample");
    reveal_strlit("vec2");
    reveal_strlit("vec2(");
    reveal_strlit("vec2<f32>(");
    reveal_strlit("vec3");
    reveal_strlit("vec3(");
    reveal_strlit("vec3<f32>(");
    reveal_strlit("vec4");
    reveal_strlit("vec4(");
    reveal_strlit("vec4<f32>(");
    reveal_strlit("vec4<f32>(vec2<f32>(coords), 0.0, 1.0)");
    reveal_strlit("void main()");
    assert forall|f: Seq<char>| names.contains(f) implies rewrites_to(t, f + "("@, f + "<f32>("@) by {
        let n = choose|n: int| 0 <= n < names.len() && names[n] == f;
        if n == 0 {
            assert(f == "vec2"@);
            let pat = f + "("@;
            assert(t[3].0 =~= pat);
            assert(t[3].1 =~= f + "<f32>("@);
            assert(pat =~= "vec2("@);
            assert forall|j: int| 0 <= j < 3 implies t[j].0 != pat by {
                if j == 0 { assert(t[0].0.len() != pat.len());
                } else if j == 1 { assert(t[1].0.len() != pat.len());
                } else if j == 2 { assert(t[2].0.len() != pat.len());
                }
            }
        } else if n == 1 {
            assert(f == "vec3"@);
            let pat = f + "("@;
            assert(t[4].0 =~= pat);
            assert(t[4].1 =~= f + "<f32>("@);
            assert(pat =~= "vec3("@);
            assert forall|j: int| 0 <= j < 4 implies t[j].0 != pat by {
                if j == 0 { assert(t[0].0.len() != pat.len());
                } else if j == 1 { assert(t[1].0.len() != pat.len());
                } else if j == 2 { assert(t[2].0.len() != pat.len());
                } else if j == 3 { assert(t[3].0[3] != pat[3]);
                }
            }
        } else if n == 2 {
            assert(f == "vec4"@);
            let pat = f + "("@;
            assert(t[5].0 =~= pat);
            assert(t[5].1 =~= f + "<f32>("@);
            assert(pat =~= "vec4("@);
            assert forall|j: int| 0 <= j < 5 implies t[j].0 != pat by {
                if j == 0 { assert(t[0].0.len() != pat.len());
                } else if j == 1 { assert(t[1].0.len() != pat.len());
                } else if j == 2 { assert(t[2].0.len() != pat.len());
                } else if j == 3 { assert(t[3].0[3] != pat[3]);
                } else if j == 4 { assert(t[4].0[3] != pat[3]);
                }
            }
        } else if n == 3 {
            assert(f == "mix"@);
            let pat = f + "("@;
            assert(t[9].0 =~= pat);
            assert(t[9].1 =~= f + "<f32>("@);
            assert(pat =~= "mix("@);
            assert forall|j: int| 0 <= j < 9 implies t[j].0 != pat by {
                if j == 0 { assert(t[0].0.len() != pat.len());
                } else if j == 1 { assert(t[1].0.len() != pat.len());
                } else if j == 2 { assert(t[2].0.len() != pat.len());
                } else if j == 3 { assert(t[3].0.len() != pat.len());
                } else if j == 4 { assert(t[4].0.len() != pat.len());
                } else if j == 5 { assert(t[5].0.len() != pat.len());
                } else if j == 6 { assert(t[6].0.len() != pat.len());
                } else if j == 7 { assert(t[7].0[0] != pat[0]);
                } else if j == 8 { assert(t[8].0.len() != pat.len());
                }
            }
        } else if n == 4 {
            assert(f == "clamp"@);
            let pat = f + "("@;
            assert(t[10].0 =~= pat);
            assert(t[10].1 =~= f + "<f32>("@);
            assert(pat =~= "clamp("@);
            assert forall|j: int| 0 <= j < 10 implies t[j].0 != pat by {
                if j == 0 { assert(t[0].0.len() != pat.len());
                } else if j == 1 { assert(t[1].0.len() != pat.len());
                } else if j == 2 { assert(t[2].0.len() != pat.len());
                } else if j == 3 { assert(t[3].0.len() != pat.len());
                } else if j == 4 { assert(t[4].0.len() != pat.len());
                } else if j == 5 { assert(t[5].0.len() != pat.len());
                } else if j == 6 { assert(t[6].0[0] != pat[0]);
                } else if j == 7 { assert(t[7].0.len() != pat.len());
                } else if j == 8 { assert(t[8].0.len() != pat.len());
                } else if j == 9 { assert(t[9].0.len() != pat.len());
                }
            }
        } else if n == 5 {
            assert(f == "sin"@);
            let pat = f + "("@;
            assert(t[11].0 =~= pat);
            assert(t[11].1 =~= f + "<f32>("@);
            assert(pat =~= "sin("@);
            assert forall|j: int| 0 <= j < 11 implies t[j].0 != pat by {
                if j == 0 { assert(t[0].0.len() != pat.len());
                } else if j == 1 { assert(t[1].0.len() != pat.len());
                } else if j == 2 { assert(t[2].0.len() != pat.len());
                } else if j == 3 { assert(t[3].0.len() != pat.len());
                } else if j == 4 { assert(t[4].0.len() != pat.len());
                } else if j == 5 { assert(t[5].0.len() != pat.len());
                } else if j == 6 { assert(t[6].0.len() != pat.len());
                } else if j == 7 { assert(t[7].0[0] != pat[0]);
                } else if j == 8 { assert(t[8].0.len() != pat.len());
                } else if j == 9 { assert(t[9].0[0] != pat[0]);
                } else if j == 10 { assert(t[10].0.len() != pat.len());
                }
            }
        } else if n == 6 {
            assert(f == "cos"@);
            let pat = f + "("@;
            assert(t[12].0 =~= pat);
            assert(t[12].1 =~= f + "<f32>("@);
            assert(pat =~= "cos("@);
            assert forall|j: int| 0 <= j < 12 implies t[j].0 != pat by {
                if j == 0 { assert(t[0].0.len() != pat.len());
                } else if j == 1 { assert(t[1].0.len() != pat.len());
                } else if j == 2 { assert(t[2].0.len() != pat.len());
                } else if j == 3 { assert(t[3].0.len() != pat.len());
                } else if j == 4 { assert(t[4].0.len() != pat.len());
                } else if j == 5 { assert(t[5].0.len() != pat.len());
                } else if j == 6 { assert(t[6].0.len() != pat.len());
                } else if j == 7 { assert(t[7].0[0] != pat[0]);
                } else if j == 8 { assert(t[8].0.len() != pat.len());
                } else if j == 9 { assert(t[9].0[0] != pat[0]);
                } else if j == 10 { assert(t[10].0.len() != pat.len());
                } else if j == 11 { assert(t[11].0[0] != pat[0]);
                }
            }
        } else if n == 7 {
            assert(f == "tan"@);
            let pat = f + "("@;
            assert(t[13].0 =~= pat);
            assert(t[13].1 =~= f + "<f32>("@);
            assert(pat =~= "tan("@);
            assert forall|j: int| 0 <= j < 13 implies t[j].0 != pat by {
                if j == 0 { assert(t[0].0.len() != pat.len());
                } else if j == 1 { assert(t[1].0.len() != pat.len());
                } else if j == 2 { assert(t[2].0.len() != pat.len());
                } else if j == 3 { assert(t[3].0.len() != pat.len());
                } else if j == 4 { assert(t[4].0.len() != pat.len());
                } else if j == 5 { assert(t[5].0.len() != pat.len());
                } else if j == 6 { assert(t[6].0.len() != pat.len());
                } else if j == 7 { assert(t[7].0[0] != pat[0]);
                } else if j == 8 { assert(t[8].0.len() != pat.len());
                } else if j == 9 { assert(t[9].0[0] != pat[0]);
                } else if j == 10 { assert(t[10].0.len() != pat.len());
                } else if j == 11 { assert(t[11].0[0] != pat[0]);
                } else if j == 12 { assert(t[12].0[0] != pat[0]);
                }
            }
        } else if n == 8 {
            assert(f == "pow"@);
            let pat = f + "("@;
            assert(t[14].0 =~= pat);
            assert(t[14].1 =~= f + "<f32>("@);
            assert(pat =~= "pow("@);
            assert forall|j: int| 0 <= j < 14 implies t[j].0 != pat by {
                if j == 0 { assert(t[0].0.len() != pat.len());
                } else if j == 1 { assert(t[1].0.len() != pat.len());
                } else if j == 2 { assert(t[2].0.len() != pat.len());
                } else if j == 3 { assert(t[3].0.len() != pat.len());
                } else if j == 4 { assert(t[4].0.len() != pat.len());
                } else if j == 5 { assert(t[5].0.len() != pat.len());
                } else if j == 6 { assert(t[6].0.len() != pat.len());
                } else if j == 7 { assert(t[7].0[0] != pat[0]);
                } else if j == 8 { assert(t[8].0.len() != pat.len());
                } else if j == 9 { assert(t[9].0[0] != pat[0]);
                } else if j == 10 { assert(t[10].0.len() != pat.len());
                } else if j == 11 { assert(t[11].0[0] != pat[0]);
                } else if j == 12 { assert(t[12].0[0] != pat[0]);
                } else if j == 13 { assert(t[13].0[0] != pat[0]);
                }
            }
        } else if n == 9 {
            assert(f == "exp"@);
            let pat = f + "("@;
            assert(t[15].0 =~= pat);
            assert(t[15].1 =~= f + "<f32>("@);
            assert(pat =~= "exp("@);
            assert forall|j: int| 0 <= j < 15 implies t[j].0 != pat by {
                if j == 0 { assert(t[0].0.len() != pat.len());
                } else if j == 1 { assert(t[1].0.len() != pat.len());
                } else if j == 2 { assert(t[2].0.len() != pat.len());
                } else if j == 3 { assert(t[3].0.len() != pat.len());
                } else if j == 4 { assert(t[4].0.len() != pat.len());
                } else if j == 5 { assert(t[5].0.len() != pat.len());
                } else if j == 6 { assert(t[6].0.len() != pat.len());
                } else if j == 7 { assert(t[7].0[0] != pat[0]);
                } else if j == 8 { assert(t[8].0.len() != pat.len());
                } else if j == 9 { assert(t[9].0[0] != pat[0]);
                } else if j == 10 { assert(t[10].0.len() != pat.len());
                } else if j == 11 { assert(t[11].0[0] != pat[0]);
                } else if j == 12 { assert(t[12].0[0] != pat[0]);
                } else if j == 13 { assert(t[13].0[0] != pat[0]);
                } else if j == 14 { assert(t[14].0[0] != pat[0]);
                }
            }
        } else if n == 10 {
            assert(f == "log"@);
            let pat = f + "("@;
            assert(t[16].0 =~= pat);
            assert(t[16].1 =~= f + "<f32>("@);
            assert(pat =~= "log("@);
            assert forall|j: int| 0 <= j < 16 implies t[j].0 != pat by {
                if j == 0 { assert(t[0].0.len() != pat.len());
                } else if j == 1 { assert(t[1].0.len() != pat.len());
                } else if j == 2 { assert(t[2].0.len() != pat.len());
                } else if j == 3 { assert(t[3].0.len() != pat.len());
                } else if j == 4 { assert(t[4].0.len() != pat.len());
                } else if j == 5 { assert(t[5].0.len() != pat.len());
                } else if j == 6 { assert(t[6].0.len() != pat.len());
                } else if j == 7 { assert(t[7].0[0] != pat[0]);
                } else if j == 8 { assert(t[8].0.len() != pat.len());
                } else if j == 9 { assert(t[9].0[0] != pat[0]);
                } else if j == 10 { assert(t[10].0.len() != pat.len());
                } else if j == 11 { assert(t[11].0[0] != pat[0]);
                } else if j == 12 { assert(t[12].0[0] != pat[0]);
                } else if j == 13 { assert(t[13].0[0] != pat[0]);
                } else if j == 14 { assert(t[14].0[0] != pat[0]);
                } else if j == 15 { assert(t[15].0[0] != pat[0]);
                }
            }
        } else if n == 11 {
            assert(f == "sqrt"@);
            let pat = f + "("@;
            assert(t[17].0 =~= pat);
            assert(t[17].1 =~= f + "<f32>("@);
            assert(pat =~= "sqrt("@);
            assert forall|j: int| 0 <= j < 17 implies t[j].0 != pat by {
                if j == 0 { assert(t[0].0.len() != pat.len());
                } else if j == 1 { assert(t[1].0.len() != pat.len());
                } else if j == 2 { assert(t[2].0.len() != pat.len());
                } else if j == 3 { assert(t[3].0[0] != pat[0]);
                } else if j == 4 { assert(t[4].0[0] != pat[0]);
                } else if j == 5 { assert(t[5].0[0] != pat[0]);
                } else if j == 6 { assert(t[6].0.len() != pat.len());
                } else if j == 7 { assert(t[7].0.len() != pat.len());
                } else if j == 8 { assert(t[8].0[0] != pat[0]);
                } else if j == 9 { assert(t[9].0.len() != pat.len());
                } else if j == 10 { assert(t[10].0.len() != pat.len());
                } else if j == 11 { assert(t[11].0.len() != pat.len());
                } else if j == 12 { assert(t[12].0.len() != pat.len());
                } else if j == 13 { assert(t[13].0.len() != pat.len());
                } else if j == 14 { assert(t[14].0.len() != pat.len());
                } else if j == 15 { assert(t[15].0.len() != pat.len());
                } else if j == 16 { assert(t[16].0.len() != pat.len());
                }
            }
        } else if n == 12 {
            assert(f == "abs"@);
            let pat = f + "("@;
            assert(t[18].0 =~= pat);
            assert(t[18].1 =~= f + "<f32>("@);
            assert(pat =~= "abs("@);
            assert forall|j: int| 0 <= j < 18 implies t[j].0 != pat by {
                if j == 0 { assert(t[0].0.len() != pat.len());
                } else if j == 1 { assert(t[1].0.len() != pat.len());
                } else if j == 2 { assert(t[2].0.len() != pat.len());
                } else if j == 3 { assert(t[3].0.len() != pat.len());
                } else if j == 4 { assert(t[4].0.len() != pat.len());
                } else if j == 5 { assert(t[5].0.len() != pat.len());
                } else if j == 6 { assert(t[6].0.len() != pat.len());
                } else if j == 7 { assert(t[7].0[0] != pat[0]);
                } else if j == 8 { assert(t[8].0.len() != pat.len());
                } else if j == 9 { assert(t[9].0[0] != pat[0]);
                } else if j == 10 { assert(t[10].0.len() != pat.len());
                } else if j == 11 { assert(t[11].0[0] != pat[0]);
                } else if j == 12 { assert(t[12].0[0] != pat[0]);
                } else if j == 13 { assert(t[13].0[0] != pat[0]);
                } else if j == 14 { assert(t[14].0[0] != pat[0]);
                } else if j == 15 { assert(t[15].0[0] != pat[0]);
                } else if j == 16 { assert(t[16].0[0] != pat[0]);
                } else if j == 17 { assert(t[17].0.len() != pat.len());
                }
            }
        } else if n == 13 {
            assert(f == "floor"@);
            let pat = f + "("@;
            assert(t[19].0 =~= pat);
            assert(t[19].1 =~= f + "<f32>("@);
            assert(pat =~= "floor("@);
            assert forall|j: int| 0 <= j < 19 implies t[j].0 != pat by {
                if j == 0 { assert(t[0].0.len() != pat.len());
                } else if j == 1 { assert(t[1].0.len() != pat.len());
                } else if j == 2 { assert(t[2].0.len() != pat.len());
                } else if j == 3 { assert(t[3].0.len() != pat.len());
                } else if j == 4 { assert(t[4].0.len() != pat.len());
                } else if j == 5 { assert(t[5].0.len() != pat.len());
                } else if j == 6 { assert(t[6].0[3] != pat[3]);
                } else if j == 7 { assert(t[7].0.len() != pat.len());
                } else if j == 8 { assert(t[8].0.len() != pat.len());
                } else if j == 9 { assert(t[9].0.len() != pat.len());
                } else if j == 10 { assert(t[10].0[0] != pat[0]);
                } else if j == 11 { assert(t[11].0.len() != pat.len());
                } else if j == 12 { assert(t[12].0.len() != pat.len());
                } else if j == 13 { assert(t[13].0.len() != pat.len());
                } else if j == 14 { assert(t[14].0.len() != pat.len());
                } else if j == 15 { assert(t[15].0.len() != pat.len());
                } else if j == 16 { assert(t[16].0.len() != pat.len());
                } else if j == 17 { assert(t[17].0.len() != pat.len());
                } else if j == 18 { assert(t[18].0.len() != pat.len());
                }
            }
        } else if n == 14 {
            assert(f == "ceil"@);
            let pat = f + "("@;
            assert(t[20].0 =~= pat);
            assert(t[20].1 =~= f + "<f32>("@);
            assert(pat =~= "ceil("@);
            assert forall|j: int| 0 <= j < 20 implies t[j].0 != pat by {
                if j == 0 { assert(t[0].0.len() != pat.len());
                } else if j == 1 { assert(t[1].0.len() != pat.len());
                } else if j == 2 { assert(t[2].0.len() != pat.len());
                } else if j == 3 { assert(t[3].0[0] != pat[0]);
                } else if j == 4 { assert(t[4].0[0] != pat[0]);
                } else if j == 5 { assert(t[5].0[0] != pat[0]);
                } else if j == 6 { assert(t[6].0.len() != pat.len());
                } else if j == 7 { assert(t[7].0.len() != pat.len());
                } else if j == 8 { assert(t[8].0[0] != pat[0]);
                } else if j == 9 { assert(t[9].0.len() != pat.len());
                } else if j == 10 { assert(t[10].0.len() != pat.len());
                } else if j == 11 { assert(t[11].0.len() != pat.len());
                } else if j == 12 { assert(t[12].0.len() != pat.len());
                } else if j == 13 { assert(t[13].0.len() != pat.len());
                } else if j == 14 { assert(t[14].0.len() != pat.len());
                } else if j == 15 { assert(t[15].0.len() != pat.len());
                } else if j == 16 { assert(t[16].0.len() != pat.len());
                } else if j == 17 { assert(t[17].0[0] != pat[0]);
                } else if j == 18 { assert(t[18].0.len() != pat.len());
                } else if j == 19 { assert(t[19].0.len() != pat.len());
                }
            }
        } else if n == 15 {
            assert(f == "fract"@);
            let pat = f + "("@;
            assert(t[21].0 =~= pat);
            assert(t[21].1 =~= f + "<f32>("@);
            assert(pat =~= "fract("@);
            assert forall|j: int| 0 <= j < 21 implies t[j].0 != pat by {
                if j == 0 { assert(t[0].0.len() != pat.len());
                } else if j == 1 { assert(t[1].0.len() != pat.len());
                } else if j == 2 { assert(t[2].0.len() != pat.len());
                } else if j == 3 { assert(t[3].0.len() != pat.len());
                } else if j == 4 { assert(t[4].0.len() != pat.len());
                } else if j == 5 { assert(t[5].0.len() != pat.len());
                } else if j == 6 { assert(t[6].0[1] != pat[1]);
                } else if j == 7 { assert(t[7].0.len() != pat.len());
                } else if j == 8 { assert(t[8].0.len() != pat.len());
                } else if j == 9 { assert(t[9].0.len() != pat.len());
                } else if j == 10 { assert(t[10].0[0] != pat[0]);
                } else if j == 11 { assert(t[11].0.len() != pat.len());
                } else if j == 12 { assert(t[12].0.len() != pat.len());
                } else if j == 13 { assert(t[13].0.len() != pat.len());
                } else if j == 14 { assert(t[14].0.len() != pat.len());
                } else if j == 15 { assert(t[15].0.len() != pat.len());
                } else if j == 16 { assert(t[16].0.len() != pat.len());
                } else if j == 17 { assert(t[17].0.len() != pat.len());
                } else if j == 18 { assert(t[18].0.len() != pat.len());
                } else if j == 19 { assert(t[19].0[1] != pat[1]);
                } else if j == 20 { assert(t[20].0.len() != pat.len());
                }
            }
        }
    }
}

fn isf_rewrite_table() -> (r: Vec<(&'static str, &'static str)>)
    ensures
        pair_views(r@) == isf_rewrites(),
{
    let mut r: Vec<(&'static str, &'static str)> = Vec::new();
    r.push(("void main()", "fn main()"));
    r.push(("gl_FragCoord", "vec4<f32>(vec2<f32>(coords), 0.0, 1.0)"));
    r.push(("texture2D", "textureSample"));
    r.push(("vec2(", "vec2<f32>("));
    r.push(("vec3(", "vec3<f32>("));
    r.push(("vec4(", "vec4<f32>("));
    r.push(("float(", "f32("));
    r.push(("int(", "i32("));
    r.push(("bool(", "bool("));
    r.push(("mix(", "mix<f32>("));
    r.push(("clamp(", "clamp<f32>("));
    r.push(("sin(", "sin<f32>("));
    r.push(("cos(", "cos<f32>("));
    r.push(("tan(", "tan<f32>("));
    r.push(("pow(", "pow<f32>("));
    r.push(("exp(", "exp<f32>("));
    r.push(("log(", "log<f32>("));
    r.push(("sqrt(", "sqrt<f32>("));
    r.push(("abs(", "abs<f32>("));
    r.push(("floor(", "floor<f32>("));
    r.push(("ceil(", "ceil<f32>("));
    r.push(("fract(", "fract<f32>("));
    r.push(("mod(", "f32("));
    assert(pair_views(r@) =~= isf_rewrites());
    r
}

/// The GLSL code of an ISF source: what follows the JSON header comment
/// (ended by `}*/`), trimmed and rewritten towards WGSL.
pub open spec fn isf_glsl(source: Seq<char>) -> Seq<char> {
    let start = match find(source, "}*/"@) {
        Some(p) => p + 3,
        None => 0,
    };
    replace_each(trim(source.subrange(start, source.len() as int)), isf_rewrites())
}

/// Extracts the GLSL code of an ISF source and rewrites it towards WGSL.
pub fn extract_glsl_from_isf(source: &str) -> (r: Vec<char>)
    ensures
        r@ == isf_glsl(source@),
{
    let s = chars_of(source);
    let pat = chars_of("}*/");
    proof {
        reveal_strlit("}*/");
        lemma_find(s@, pat@);
    }
    let start = match find_exec(s.as_slice(), pat.as_slice()) {
        Some(p) => {
            assert(crate::text::occurs_at(s@, pat@, p as int));
            assert(pat@.len() == 3);
            let n = s.len();
            assert(p + 3 <= n);
            p + 3
        },
        None => 0,
    };
    let code = trim_exec(sub_vec(s.as_slice(), start, s.len()).as_slice());
    let table = isf_rewrite_table();
    replace_each_exec(code.as_slice(), &table)
}

/// The WGSL statements for GLSL code: `gl_FragColor` becomes a `color`
/// binding, which is then stored to the output texture.
pub open spec fn glsl_statements(glsl: Seq<char>) -> Seq<char> {
    let w = replace_all(replace_all(glsl, "gl_FragColor"@, "let color"@), "texture2D"@, "textureSample"@);
    if contains(w, "let color"@) {
        w + "    textureStore(output_texture, coords, color);\n"@
    } else {
        w
    }
}

/// Rewrites GLSL statements to WGSL statements.
pub fn glsl_to_wgsl(glsl: &[char]) -> (r: Vec<char>)
    ensures
        r@ == glsl_statements(glsl@),
{
    let a = replace_str(glsl, "gl_FragColor", "let color");
    let mut w = replace_str(a.as_slice(), "texture2D", "textureSample");
    if contains_str(w.as_slice(), "let color") {
        push_str(&mut w, "    textureStore(output_texture, coords, color);\n");
    }
    w
}

/// The position of the first of `names` equal to `x` (`names.len()` when none is).
pub open spec fn first_index(names: Seq<Seq<char>>, x: Seq<char>) -> nat
    decreases names.len(),
{
    if names.len() == 0 {
        0
    } else if names[0] == x {
        0
    } else {
        1 + first_index(names.drop_first(), x)
    }
}

proof fn lemma_first_index(names: Seq<Seq<char>>, x: Seq<char>, j: int)
    requires
        0 <= j < names.len(),
        names[j] == x,
        forall|q: int| 0 <= q < j ==> names[q] != x,
    ensures
        first_index(names, x) == j,
    decreases j,
{
    if j > 0 {
        assert(names[0] != x);
        lemma_first_index(names.drop_first(), x, j - 1);
    }
}

/// The declarations of an input with binding position `p`.
pub open spec fn input_decl(name: Seq<char>, ty: InputType, p: nat) -> Seq<char> {
    match ty {
        InputType::Float => "@group(0) @binding("@ + nat_text(p + 2) + ")\n"@ + "var<uniform> "@ + name
            + ": f32;\n"@,
        InputType::Bool => "@group(0) @binding("@ + nat_text(p + 2) + ")\n"@ + "var<uniform> "@ + name
            + ": u32;\n"@,
        InputType::Color => "@group(0) @binding("@ + nat_text(p + 2) + ")\n"@ + "var<uniform> "@ + name
            + ": vec4<f32>;\n"@,
        InputType::Point2D => "@group(0) @binding("@ + nat_text(p + 2) + ")\n"@ + "var<uniform> "@
            + name + ": vec2<f32>;\n"@,
        InputType::Image => "@group(1) @binding("@ + nat_text(p) + ")\n"@ + "var "@ + name
            + ": texture_2d<f32>;\n"@ + "@group(1) @binding("@ + nat_text(p + 1) + ")\n"@ + "var "@
            + name + "_sampler: sampler;\n"@,
    }
}

pub open spec fn input_names_of(inputs: Seq<ShaderInput>) -> Seq<Seq<char>> {
    inputs.map_values(|i: ShaderInput| i.name@)
}

/// The declarations of the first `k` inputs; each is bound at the position
/// of the first input with its name.
pub open spec fn input_decls(inputs: Seq<ShaderInput>, k: nat) -> Seq<char>
    decreases k,
{
    if k == 0 {
        seq![]
    } else {
        input_decls(inputs, (k - 1) as nat) + input_decl(
            inputs[k - 1].name@,
            inputs[k - 1].input_type,
            first_index(input_names_of(inputs), inputs[k - 1].name@),
        )
    }
}

pub const ISF_HEADER: &'static str = "@group(0) @binding(0)\nvar<uniform> time: f32;\n@group(0) @binding(1)\nvar<uniform> resolution: vec2<f32>;\n";

pub const ISF_OUTPUT: &'static str = "@group(2) @binding(0)\nvar output_texture: texture_storage_2d<rgba8unorm, write>;\n";

pub const ISF_ENTRY: &'static str = "@compute @workgroup_size(16, 16)\nfn main(@builtin(global_invocation_id) global_id: vec3<u32>) {\n    let coords = vec2<i32>(global_id.xy);\n    let uv = vec2<f32>(coords) / resolution;\n";

/// The compute shader generated for an ISF shader.
pub open spec fn isf_wgsl(shader: IsfShader) -> Seq<char> {
    ISF_HEADER@ + input_decls(shader.inputs@, shader.inputs@.len()) + ISF_OUTPUT@ + ISF_ENTRY@
        + glsl_statements(isf_glsl(shader.source@)) + "}\n"@
}

fn write_input_decl(out: &mut Vec<char>, name: &[char], ty: InputType, p: usize)
    ensures
        final(out)@ == old(out)@ + input_decl(name@, ty, p as nat),
{
    let q = p as u128;
    match ty {
        InputType::Image => {
            push_str(out, "@group(1) @binding(");
            push_nat(out, q);
            push_str(out, ")\n");
            push_str(out, "var ");
            push_chars(out, name);
            push_str(out, ": texture_2d<f32>;\n");
            push_str(out, "@group(1) @binding(");
            push_nat(out, q + 1);
            push_str(out, ")\n");
            push_str(out, "var ");
            push_chars(out, name);
            push_str(out, "_sampler: sampler;\n");
        },
        _ => {
            push_str(out, "@group(0) @binding(");
            push_nat(out, q + 2);
            push_str(out, ")\n");
            push_str(out, "var<uniform> ");
            push_chars(out, name);
            match ty {
                InputType::Float => push_str(out, ": f32;\n"),
                InputType::Bool => push_str(out, ": u32;\n"),
                InputType::Color => push_str(out, ": vec4<f32>;\n"),
                _ => push_str(out, ": vec2<f32>;\n"),
            }
        },
    }
    assert(out@ =~= old(out)@ + input_decl(name@, ty, p as nat));
}

/// Converts an ISF shader to a WGSL compute shader that writes its colour
/// to a storage texture.
pub fn isf_to_wgsl(shader: &IsfShader) -> (r: String)
    ensures
        r@ == isf_wgsl(*shader),
{
    let mut out: Vec<char> = Vec::new();
    push_str(&mut out, ISF_HEADER);
    let mut names: Vec<Vec<char>> = Vec::new();
    let mut n: usize = 0;
    while n < shader.inputs.len()
        invariant
            n <= shader.inputs@.len(),
            names@.len() == n,
            forall|m: int| 0 <= m < n ==> (#[trigger] names@[m])@ == shader.inputs@[m].name@,
        decreases shader.inputs@.len() - n,
    {
        names.push(chars_of(shader.inputs[n].name.as_str()));
        n = n + 1;
    }
    let ghost nv = input_names_of(shader.inputs@);
    let mut i: usize = 0;
    while i < shader.inputs.len()
        invariant
            i <= shader.inputs@.len(),
            names@.len() == shader.inputs@.len(),
            nv == input_names_of(shader.inputs@),
            forall|m: int| 0 <= m < names@.len() ==> (#[trigger] names@[m])@ == nv[m],
            out@ == ISF_HEADER@ + input_decls(shader.inputs@, i as nat),
        decreases shader.inputs@.len() - i,
    {
        let mut j: usize = 0;
        while j < i && !eq_chars(names[j].as_slice(), names[i].as_slice())
            invariant
                j <= i,
                i < names@.len(),
                forall|m: int| 0 <= m < names@.len() ==> (#[trigger] names@[m])@ == nv[m],
                forall|q: int| 0 <= q < j ==> nv[q] != nv[i as int],
            decreases i - j,
        {
            j = j + 1;
        }
        proof {
            lemma_first_index(nv, nv[i as int], j as int);
        }
        write_input_decl(&mut out, names[i].as_slice(), shader.inputs[i].input_type, j);
        i = i + 1;
    }
    push_str(&mut out, ISF_OUTPUT);
    push_str(&mut out, ISF_ENTRY);
    let glsl = extract_glsl_from_isf(shader.source.as_str());
    let statements = glsl_to_wgsl(glsl.as_slice());
    push_chars(&mut out, statements.as_slice());
    push_str(&mut out, "}\n");
    string_of(out.as_slice())
}


// ---------------------------------------------------------------------------
// WGSL to GLSL and HLSL
// ---------------------------------------------------------------------------

/// The body of the first `fn main(`: the text between the first `{` after it
/// and the first `}` after that.
pub open spec fn wgsl_body(w: Seq<char>) -> Option<Seq<char>> {
    match find(w, "fn main("@) {
        Some(s) => {
            let a = w.subrange(s, w.len() as int);
            match find(a, "{"@) {
                Some(b) => {
                    let c = a.subrange(b, a.len() as int);
                    match find(c, "}"@) {
                        Some(e) => Some(c.subrange(1, e)),
                        None => None,
                    }
                },
                None => None,
            }
        },
        None => None,
    }
}

/// Extracts the body of the WGSL `fn main(` function.
pub fn extract_wgsl_body(wgsl: &[char]) -> (r: Result<Vec<char>, String>)
    ensures
        match r {
            Ok(b) => wgsl_body(wgsl@) == Some(b@),
            Err(m) => wgsl_body(wgsl@) is None && m@ == NO_BODY_MESSAGE@,
        },
{
    let pat = chars_of("fn main(");
    let open = chars_of("{");
    let close = chars_of("}");
    proof {
        reveal_strlit("fn main(");
        reveal_strlit("{");
        reveal_strlit("}");
        lemma_find(wgsl@, pat@);
    }
    if let Some(s) = find_exec(wgsl, pat.as_slice()) {
        assert(crate::text::occurs_at(wgsl@, pat@, s as int));
        let a = sub_vec(wgsl, s, wgsl.len());
        proof {
            lemma_find(a@, open@);
        }
        if let Some(b) = find_exec(a.as_slice(), open.as_slice()) {
            assert(crate::text::occurs_at(a@, open@, b as int));
            let c = sub_vec(a.as_slice(), b, a.len());
            proof {
                lemma_find(c@, close@);
                assert(c@[0] == '{');
                assert(!crate::text::occurs_at(c@, close@, 0)) by {
                    assert(c@.subrange(0, 1)[0] == '{');
                }
            }
            if let Some(e) = find_exec(c.as_slice(), close.as_slice()) {
                assert(crate::text::occurs_at(c@, close@, e as int));
                return Ok(sub_vec(c.as_slice(), 1, e));
            }
        }
    }
    Err(string_of(chars_of(NO_BODY_MESSAGE).as_slice()))
}

/// The name declared by a `var<uniform> <name>: <type>` line: the text from
/// the thirteenth character after `var<uniform>` up to the next `:`, trimmed.
pub open spec fn uniform_name(line: Seq<char>) -> Seq<char> {
    match find(line, "var<uniform>"@) {
        Some(s) => {
            let after = line.subrange(s + 13, line.len() as int);
            match find(after, ":"@) {
                Some(e) => trim(after.subrange(0, e)),
                None => seq![],
            }
        },
        None => seq![],
    }
}

/// The character after `var<uniform>` exists and is one byte long in UTF-8,
/// so that the name can be cut 13 bytes after the keyword.
pub open spec fn uniform_name_cut_ok(line: Seq<char>) -> bool {
    match find(line, "var<uniform>"@) {
        Some(s) => s + 12 < line.len() && (line[s + 12] as u32) < 0x80,
        None => true,
    }
}

/// Extracts the name from a `var<uniform>` declaration line.
pub fn extract_uniform_name(line: &[char]) -> (r: Vec<char>)
    requires
        uniform_name_cut_ok(line@),
    ensures
        r@ == uniform_name(line@),
{
    let pat = chars_of("var<uniform>");
    let colon = chars_of(":");
    proof {
        reveal_strlit("var<uniform>");
        reveal_strlit(":");
        lemma_find(line@, pat@);
    }
    if let Some(start) = find_exec(line, pat.as_slice()) {
        let n = line.len();
        assert(start + 12 < n);
        let after = sub_vec(line, start + 13, n);
        proof {
            lemma_find(after@, colon@);
        }
        if let Some(end) = find_exec(after.as_slice(), colon.as_slice()) {
            assert(crate::text::occurs_at(after@, colon@, end as int));
            return trim_exec(sub_vec(after.as_slice(), 0, end).as_slice());
        }
    }
    Vec::new()
}

/// The WGSL-to-GLSL rewrites of a function body, in order.
pub open spec fn glsl_body_rewrites() -> Seq<(Seq<char>, Seq<char>)> {
    seq![
        ("vec2<f32>"@, "vec2"@),
        ("vec3<f32>"@, "vec3"@),
        ("vec4<f32>"@, "vec4"@),
        ("f32("@, "float("@),
        ("i32("@, "int("@),
        ("u32("@, "uint("@),
        ("bool("@, "bool("@),
        ("textureSample"@, "texture"@),
        ("let "@, ""@),
        (";"@, " = "@),
        ("textureStore(output_texture, coords, color)"@, "fragColor = color"@),
        ("gl_FragCoord"@, "vec4(gl_FragCoord.xy, 0.0, 1.0)"@),
        ("position.xy"@, "gl_FragCoord.xy"@),
    ]
}

/// In a GLSL body each WGSL vector `vecN<f32>` becomes the GLSL vector
/// `vecN` of the same dimension `N`, and each scalar conversion keeps its
/// kind: `f32(`, `i32(`, `u32(` become `float(`, `int(`, `uint(`.
pub proof fn lemma_glsl_body_types_keep_their_shape()
    ensures
        forall|d: char| '2' <= d <= '4' ==> rewrites_to(glsl_body_rewrites(), "vec"@.push(d) + "<f32>"@, "vec"@.push(d)),
        rewrites_to(glsl_body_rewrites(), "f32("@, "float("@),
        rewrites_to(glsl_body_rewrites(), "i32("@, "int("@),
        rewrites_to(glsl_body_rewrites(), "u32("@, "uint("@),
{
    let t = glsl_body_rewrites();
    reveal_strlit(" = ");
    reveal_strlit(";");
    reveal_strlit("<f32>");
    reveal_strlit("bool(");
    reveal_strlit("f32(");
    reveal_strlit("float");
    reveal_strlit("float(");
    reveal_strlit("fragColor = color");
    reveal_strlit("gl_FragCoord");
    reveal_strlit("gl_FragCoord.xy");
    reveal_strlit("i32(");
    reveal_strlit("int(");
    reveal_strlit("let ");
    reveal_strlit("position.xy");
    reveal_strlit("texture");
    reveal_strlit("textureSample");
    reveal_strlit("textureStore(output_texture, coords, color)");
    reveal_strlit("u32(");
    reveal_strlit("uint(");
    reveal_strlit("vec");
    reveal_strlit("vec2");
    reveal_strlit("vec2<f32>");
    reveal_strlit("vec3");
    reveal_strlit("vec3<f32>");
    reveal_strlit("vec4");
    reveal_strlit("vec4(gl_FragCoord.xy, 0.0, 1.0)");
    reveal_strlit("vec4<f32>");
    assert forall|d: char| '2' <= d <= '4' implies rewrites_to(t, "vec"@.push(d) + "<f32>"@, "vec"@.push(d)) by {
        if d == '2' {
            let pat = "vec"@.push(d) + "<f32>"@;
            assert(t[0].0 =~= pat);
            assert(t[0].1 =~= "vec"@.push(d));
        } else if d == '3' {
            let pat = "vec"@.push(d) + "<f32>"@;
            assert(t[1].0 =~= pat);
            assert(t[1].1 =~= "vec"@.push(d));
            assert forall|j: int| 0 <= j < 1 implies t[j].0 != pat by {
                if j == 0 {
                    assert(t[0].0[3] != pat[3]);
                }
            }
        } else {
            let pat = "vec"@.push(d) + "<f32>"@;
            assert(t[2].0 =~= pat);
            assert(t[2].1 =~= "vec"@.push(d));
            assert forall|j: int| 0 <= j < 2 implies t[j].0 != pat by {
                if j == 0 {
                    assert(t[0].0[3] != pat[3]);
                } else if j == 1 {
                    assert(t[1].0[3] != pat[3]);
                }
            }
        }
    }
    {
        let pat = "f32("@;
        assert(t[3].0 =~= pat);
        assert(t[3].1 =~= "float("@);
        assert forall|j: int| 0 <= j < 3 implies t[j].0 != pat by {
            if j == 0 {
                assert(t[0].0.len() != pat.len());
            } else if j == 1 {
                assert(t[1].0.len() != pat.len());
            } else if j == 2 {
                assert(t[2].0.len() != pat.len());
            }
        }
    }
    {
        let pat = "i32("@;
        assert(t[4].0 =~= pat);
        assert(t[4].1 =~= "int("@);
        assert forall|j: int| 0 <= j < 4 implies t[j].0 != pat by {
            if j == 0 {
                assert(t[0].0.len() != pat.len());
            } else if j == 1 {
                assert(t[1].0.len() != pat.len());
            } else if j == 2 {
                assert(t[2].0.len() != pat.len());
            } else if j == 3 {
                assert(t[3].0[0] != pat[0]);
            }
        }
    }
    {
        let pat = "u32("@;
        assert(t[5].0 =~= pat);
        assert(t[5].1 =~= "uint("@);
        assert forall|j: int| 0 <= j < 5 implies t[j].0 != pat by {
            if j == 0 {
                assert(t[0].0.len() != pat.len());
            } else if j == 1 {
                assert(t[1].0.len() != pat.len());
            } else if j == 2 {
                assert(t[2].0.len() != pat.len());
            } else if j == 3 {
                assert(t[3].0[0] != pat[0]);
            } else if j == 4 {
                assert(t[4].0[0] != pat[0]);
            }
        }
    }
}

fn glsl_body_table() -> (r: Vec<(&'static str, &'static str)>)
    ensures
        pair_views(r@) == glsl_body_rewrites(),
{
    let mut r: Vec<(&'static str, &'static str)> = Vec::new();
    r.push(("vec2<f32>", "vec2"));
    r.push(("vec3<f32>", "vec3"));
    r.push(("vec4<f32>", "vec4"));
    r.push(("f32(", "float("));
    r.push(("i32(", "int("));
    r.push(("u32(", "uint("));
    r.push(("bool(", "bool("));
    r.push(("textureSample", "texture"));
    r.push(("let ", ""));
    r.push((";", " = "));
    r.push(("textureStore(output_texture, coords, color)", "fragColor = color"));
    r.push(("gl_FragCoord", "vec4(gl_FragCoord.xy, 0.0, 1.0)"));
    r.push(("position.xy", "gl_FragCoord.xy"));
    assert(pair_views(r@) =~= glsl_body_rewrites());
    r
}

/// The WGSL-to-HLSL rewrites of a function body, in order.
pub open spec fn hlsl_body_rewrites() -> Seq<(Seq<char>, Seq<char>)> {
    seq![
        ("vec2<f32>"@, "float2"@),
        ("vec3<f32>"@, "float3"@),
        ("vec4<f32>"@, "float4"@),
        ("f32("@, "float("@),
        ("i32("@, "int("@),
        ("u32("@, "uint("@),
        ("bool("@, "bool("@),
        ("textureSample"@, "tex2D"@),
        ("let "@, ""@),
        (";"@, " = "@),
        ("textureStore(output_texture, coords, color)"@, "return color"@),
        ("gl_FragCoord"@, "input.position"@),
        ("position.xy"@, "input.uv"@),
    ]
}

/// In an HLSL body each WGSL vector `vecN<f32>` becomes the HLSL vector
/// `floatN` of the same dimension `N`, and each scalar conversion keeps its
/// kind: `f32(`, `i32(`, `u32(` become `float(`, `int(`, `uint(`.
pub proof fn lemma_hlsl_body_types_keep_their_shape()
    ensures
        forall|d: char| '2' <= d <= '4' ==> rewrites_to(hlsl_body_rewrites(), "vec"@.push(d) + "<f32>"@, "float"@.push(d)),
        rewrites_to(hlsl_body_rewrites(), "f32("@, "float("@),
        rewrites_to(hlsl_body_rewrites(), "i32("@, "int("@),
        rewrites_to(hlsl_body_rewrites(), "u32("@, "uint("@),
{
    let t = hlsl_body_rewrites();
    reveal_strlit(" = ");
    reveal_strlit(";");
    reveal_strlit("<f32>");
    reveal_strlit("bool(");
    reveal_strlit("f32(");
    reveal_strlit("float");
    reveal_strlit("float(");
    reveal_strlit("float2");
    reveal_strlit("float3");
    reveal_strlit("float4");
    reveal_strlit("gl_FragCoord");
    reveal_strlit("i32(");
    reveal_strlit("input.position");
    reveal_strlit("input.uv");
    reveal_strlit("int(");
    reveal_strlit("let ");
    reveal_strlit("position.xy");
    reveal_strlit("return color");
    reveal_strlit("tex2D");
    reveal_strlit("textureSample");
    reveal_strlit("textureStore(output_texture, coords, color)");
    reveal_strlit("u32(");
    reveal_strlit("uint(");
    reveal_strlit("vec");
    reveal_strlit("vec2<f32>");
    reveal_strlit("vec3<f32>");
    reveal_strlit("vec4<f32>");
    assert forall|d: char| '2' <= d <= '4' implies rewrites_to(t, "vec"@.push(d) + "<f32>"@, "float"@.push(d)) by {
        if d == '2' {
            let pat = "vec"@.push(d) + "<f32>"@;
            assert(t[0].0 =~= pat);
            assert(t[0].1 =~= "float"@.push(d));
        } else if d == '3' {
            let pat = "vec"@.push(d) + "<f32>"@;
            assert(t[1].0 =~= pat);
            assert(t[1].1 =~= "float"@.push(d));
            assert forall|j: int| 0 <= j < 1 implies t[j].0 != pat by {
                if j == 0 {
                    assert(t[0].0[3] != pat[3]);
                }
            }
        } else {
            let pat = "vec"@.push(d) + "<f32>"@;
            assert(t[2].0 =~= pat);
            assert(t[2].1 =~= "float"@.push(d));
            assert forall|j: int| 0 <= j < 2 implies t[j].0 != pat by {
                if j == 0 {
                    assert(t[0].0[3] != pat[3]);
                } else if j == 1 {
                    assert(t[1].0[3] != pat[3]);
                }
            }
        }
    }
    {
        let pat = "f32("@;
        assert(t[3].0 =~= pat);
        assert(t[3].1 =~= "float("@);
        assert forall|j: int| 0 <= j < 3 implies t[j].0 != pat by {
            if j == 0 {
                assert(t[0].0.len() != pat.len());
            } else if j == 1 {
                assert(t[1].0.len() != pat.len());
            } else if j == 2 {
                assert(t[2].0.len() != pat.len());
            }
        }
    }
    {
        let pat = "i32("@;
        assert(t[4].0 =~= pat);
        assert(t[4].1 =~= "int("@);
        assert forall|j: int| 0 <= j < 4 implies t[j].0 != pat by {
            if j == 0 {
                assert(t[0].0.len() != pat.len());
            } else if j == 1 {
                assert(t[1].0.len() != pat.len());
            } else if j == 2 {
                assert(t[2].0.len() != pat.len());
            } else if j == 3 {
                assert(t[3].0[0] != pat[0]);
            }
        }
    }
    {
        let pat = "u32("@;
        assert(t[5].0 =~= pat);
        assert(t[5].1 =~= "uint("@);
        assert forall|j: int| 0 <= j < 5 implies t[j].0 != pat by {
            if j == 0 {
                assert(t[0].0.len() != pat.len());
            } else if j == 1 {
                assert(t[1].0.len() != pat.len());
            } else if j == 2 {
                assert(t[2].0.len() != pat.len());
            } else if j == 3 {
                assert(t[3].0[0] != pat[0]);
            } else if j == 4 {
                assert(t[4].0[0] != pat[0]);
            }
        }
    }
}

fn hlsl_body_table() -> (r: Vec<(&'static str, &'static str)>)
    ensures
        pair_views(r@) == hlsl_body_rewrites(),
{
    let mut r: Vec<(&'static str, &'static str)> = Vec::new();
    r.push(("vec2<f32>", "float2"));
    r.push(("vec3<f32>", "float3"));
    r.push(("vec4<f32>", "float4"));
    r.push(("f32(", "float("));
    r.push(("i32(", "int("));
    r.push(("u32(", "uint("));
    r.push(("bool(", "bool("));
    r.push(("textureSample", "tex2D"));
    r.push(("let ", ""));
    r.push((";", " = "));
    r.push(("textureStore(output_texture, coords, color)", "return color"));
    r.push(("gl_FragCoord", "input.position"));
    r.push(("position.xy", "input.uv"));
    assert(pair_views(r@) =~= hlsl_body_rewrites());
    r
}

/// The GLSL text for a `var<uniform>` line, or nothing for other lines. The
/// text is appended without a line break.
pub open spec fn glsl_uniform(line: Seq<char>) -> Seq<char> {
    let u = replace_all(line, "var<uniform>"@, "uniform"@);
    if !contains(line, "var<uniform>"@) {
        seq![]
    } else if contains(line, "f32"@) {
        replace_all(u, ": f32;"@, ";"@)
    } else if contains(line, "vec2<f32>"@) {
        replace_all(u, ": vec2<f32>;"@, ";"@)
    } else if contains(line, "vec3<f32>"@) {
        replace_all(u, ": vec3<f32>;"@, ";"@)
    } else if contains(line, "vec4<f32>"@) {
        replace_all(u, ": vec4<f32>;"@, ";"@)
    } else if contains(line, "u32"@) {
        replace_all(u, ": u32;"@, ";"@)
    } else {
        seq![]
    }
}

/// The GLSL uniforms for the first `k` lines.
pub open spec fn glsl_uniforms(ls: Seq<Seq<char>>, k: nat) -> Seq<char>
    decreases k,
{
    if k == 0 {
        seq![]
    } else {
        glsl_uniforms(ls, (k - 1) as nat) + glsl_uniform(ls[k - 1])
    }
}

pub const GLSL_HEADER: &'static str = "#version 330 core\nuniform float time;\nuniform vec2 resolution;\nuniform vec2 mouse;\nout vec4 fragColor;\n";

pub const GLSL_MAIN: &'static str = "void main() {\n    vec2 uv = gl_FragCoord.xy / resolution;\n";

/// The GLSL fragment shader for WGSL text with body `body`.
pub open spec fn glsl_text(wgsl: Seq<char>, body: Seq<char>) -> Seq<char> {
    GLSL_HEADER@ + glsl_uniforms(lines(wgsl), lines(wgsl).len()) + GLSL_MAIN@ + replace_each(
        body,
        glsl_body_rewrites(),
    ) + "}\n"@
}

fn glsl_uniform_exec(line: &[char]) -> (r: Vec<char>)
    ensures
        r@ == glsl_uniform(line@),
{
    if !contains_str(line, "var<uniform>") {
        return Vec::new();
    }
    let u = replace_str(line, "var<uniform>", "uniform");
    if contains_str(line, "f32") {
        replace_str(u.as_slice(), ": f32;", ";")
    } else if contains_str(line, "vec2<f32>") {
        replace_str(u.as_slice(), ": vec2<f32>;", ";")
    } else if contains_str(line, "vec3<f32>") {
        replace_str(u.as_slice(), ": vec3<f32>;", ";")
    } else if contains_str(line, "vec4<f32>") {
        replace_str(u.as_slice(), ": vec4<f32>;", ";")
    } else if contains_str(line, "u32") {
        replace_str(u.as_slice(), ": u32;", ";")
    } else {
        Vec::new()
    }
}

/// Converts WGSL to an OpenGL fragment shader; fails when the WGSL has no
/// `fn main(` body.
pub fn wgsl_to_glsl(wgsl: &str) -> (r: Result<String, String>)
    ensures
        match r {
            Ok(g) => wgsl_body(wgsl@) matches Some(b) && g@ == glsl_text(wgsl@, b),
            Err(m) => wgsl_body(wgsl@) is None && m@ == NO_BODY_MESSAGE@,
        },
{
    let w = chars_of(wgsl);
    let mut out: Vec<char> = Vec::new();
    push_str(&mut out, GLSL_HEADER);
    let ls = lines_exec(w.as_slice());
    let mut k: usize = 0;
    while k < ls.len()
        invariant
            k <= ls@.len(),
            ls@.len() == lines(w@).len(),
            forall|m: int| 0 <= m < ls@.len() ==> #[trigger] ls@[m]@ == lines(w@)[m],
            out@ == GLSL_HEADER@ + glsl_uniforms(lines(w@), k as nat),
        decreases ls@.len() - k,
    {
        let piece = glsl_uniform_exec(ls[k].as_slice());
        push_chars(&mut out, piece.as_slice());
        k = k + 1;
    }
    push_str(&mut out, GLSL_MAIN);
    let body = match extract_wgsl_body(w.as_slice()) {
        Ok(b) => b,
        Err(m) => {
            return Err(m);
        },
    };
    let table = glsl_body_table();
    let converted = replace_each_exec(body.as_slice(), &table);
    push_chars(&mut out, converted.as_slice());
    push_str(&mut out, "}\n");
    Ok(string_of(out.as_slice()))
}

/// The HLSL declaration for a `var<uniform>` line, or nothing for other lines.
pub open spec fn hlsl_uniform(line: Seq<char>) -> Seq<char> {
    if !contains(line, "var<uniform>"@) {
        seq![]
    } else if contains(line, "f32"@) {
        "float "@ + uniform_name(line) + ";\n"@
    } else if contains(line, "vec2<f32>"@) {
        "float2 "@ + uniform_name(line) + ";\n"@
    } else if contains(line, "vec3<f32>"@) {
        "float3 "@ + uniform_name(line) + ";\n"@
    } else if contains(line, "vec4<f32>"@) {
        "float4 "@ + uniform_name(line) + ";\n"@
    } else if contains(line, "u32"@) {
        "uint "@ + uniform_name(line) + ";\n"@
    } else {
        seq![]
    }
}

/// A uniform line whose declaration is written out (it names `f32` or `u32`).
pub open spec fn declares_uniform(line: Seq<char>) -> bool {
    contains(line, "var<uniform>"@) && (contains(line, "f32"@) || contains(line, "u32"@))
}

/// Every declared uniform's name can be cut out of its line.
pub open spec fn hlsl_uniforms_ok(wgsl: Seq<char>) -> bool {
    forall|k: int|
        0 <= k < lines(wgsl).len() && declares_uniform(#[trigger] lines(wgsl)[k])
            ==> uniform_name_cut_ok(lines(wgsl)[k])
}

/// The HLSL declarations for the first `k` lines.
pub open spec fn hlsl_uniforms(ls: Seq<Seq<char>>, k: nat) -> Seq<char>
    decreases k,
{
    if k == 0 {
        seq![]
    } else {
        hlsl_uniforms(ls, (k - 1) as nat) + hlsl_uniform(ls[k - 1])
    }
}

pub const HLSL_HEADER: &'static str = "cbuffer Constants {\n    float time;\n    float2 resolution;\n    float2 mouse;\n};\n\n";

pub const HLSL_MAIN: &'static str = "\nstruct PSInput {\n    float4 position : SV_POSITION;\n    float2 uv : TEXCOORD;\n};\n\nfloat4 main(PSInput input) : SV_TARGET {\n    float2 uv = input.uv;\n";

/// The HLSL pixel shader for WGSL text with body `body`.
pub open spec fn hlsl_text(wgsl: Seq<char>, body: Seq<char>) -> Seq<char> {
    HLSL_HEADER@ + hlsl_uniforms(lines(wgsl), lines(wgsl).len()) + HLSL_MAIN@ + replace_each(
        body,
        hlsl_body_rewrites(),
    ) + "}\n"@
}

fn hlsl_uniform_exec(line: &[char]) -> (r: Vec<char>)
    requires
        declares_uniform(line@) ==> uniform_name_cut_ok(line@),
    ensures
        r@ == hlsl_uniform(line@),
{
    let mut out: Vec<char> = Vec::new();
    if !contains_str(line, "var<uniform>") {
        return out;
    }
    if contains_str(line, "f32") {
        push_str(&mut out, "float ");
    } else if contains_str(line, "vec2<f32>") {
        push_str(&mut out, "float2 ");
    } else if contains_str(line, "vec3<f32>") {
        push_str(&mut out, "float3 ");
    } else if contains_str(line, "vec4<f32>") {
        push_str(&mut out, "float4 ");
    } else if contains_str(line, "u32") {
        push_str(&mut out, "uint ");
    } else {
        return out;
    }
    proof {
        if contains(line@, "vec2<f32>"@) || contains(line@, "vec3<f32>"@) || contains(line@, "vec4<f32>"@) {
            lemma_contains_f32(line@);
        }
    }
    let name = extract_uniform_name(line);
    push_chars(&mut out, name.as_slice());
    push_str(&mut out, ";\n");
    out
}

/// Text that names a `vec<N><f32>` type names `f32`.
proof fn lemma_contains_f32(s: Seq<char>)
    requires
        contains(s, "vec2<f32>"@) || contains(s, "vec3<f32>"@) || contains(s, "vec4<f32>"@),
    ensures
        contains(s, "f32"@),
{
    reveal_strlit("vec2<f32>");
    reveal_strlit("vec3<f32>");
    reveal_strlit("vec4<f32>");
    reveal_strlit("f32");
    let i = choose|i: int|
        crate::text::occurs_at(s, "vec2<f32>"@, i) || crate::text::occurs_at(s, "vec3<f32>"@, i)
            || crate::text::occurs_at(s, "vec4<f32>"@, i);
    let w = s.subrange(i, i + 9);
    assert(w[5] == 'f' && w[6] == '3' && w[7] == '2');
    assert(s.subrange(i + 5, i + 8) =~= "f32"@);
    assert(crate::text::occurs_at(s, "f32"@, i + 5));
}

/// Converts WGSL to a DirectX pixel shader; fails when the WGSL has no
/// `fn main(` body.
pub fn wgsl_to_hlsl(wgsl: &str) -> (r: Result<String, String>)
    requires
        hlsl_uniforms_ok(wgsl@),
    ensures
        match r {
            Ok(h) => wgsl_body(wgsl@) matches Some(b) && h@ == hlsl_text(wgsl@, b),
            Err(m) => wgsl_body(wgsl@) is None && m@ == NO_BODY_MESSAGE@,
        },
{
    let w = chars_of(wgsl);
    let mut out: Vec<char> = Vec::new();
    push_str(&mut out, HLSL_HEADER);
    let ls = lines_exec(w.as_slice());
    let mut k: usize = 0;
    while k < ls.len()
        invariant
            k <= ls@.len(),
            w@ == wgsl@,
            hlsl_uniforms_ok(wgsl@),
            ls@.len() == lines(w@).len(),
            forall|m: int| 0 <= m < ls@.len() ==> #[trigger] ls@[m]@ == lines(w@)[m],
            out@ == HLSL_HEADER@ + hlsl_uniforms(lines(w@), k as nat),
        decreases ls@.len() - k,
    {
        assert(ls@[k as int]@ == lines(wgsl@)[k as int]);
        let piece = hlsl_uniform_exec(ls[k].as_slice());
        push_chars(&mut out, piece.as_slice());
        k = k + 1;
    }
    push_str(&mut out, HLSL_MAIN);
    let body = match extract_wgsl_body(w.as_slice()) {
        Ok(b) => b,
        Err(m) => {
            return Err(m);
        },
    };
    let table = hlsl_body_table();
    let converted = replace_each_exec(body.as_slice(), &table);
    push_chars(&mut out, converted.as_slice());
    push_str(&mut out, "}\n");
    Ok(string_of(out.as_slice()))
}

} // verus!
