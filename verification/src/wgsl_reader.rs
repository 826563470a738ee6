//! Recognition of the lines that the node-graph compiler writes into a
//! fragment shader: variable definitions `let v<n>: <type> = <expr>;` and the
//! final `return <var>;`.
use vstd::prelude::*;
use crate::decimal::{all_digits, digits_value, parse_decimal, parse_decimal_exec, Decimal};
use crate::node_graph::NodeKind;
use crate::codegen::{component, function_name, value_type};
use crate::text::{
    chars_of, ends_with, ends_with_str, eq_str, find, find_exec, lemma_find, occurs_at, split,
    split_exec, starts_with, starts_with_str, sub_vec,
};

verus! {

/// The parts of a definition line: variable name, type and expression.
pub open spec fn definition_parts(t: Seq<char>) -> Option<(Seq<char>, Seq<char>, Seq<char>)> {
    if starts_with(t, "let "@) && ends_with(t, ";"@) && t.len() >= 5 {
        let rest = t.subrange(4, t.len() - 1);
        match find(rest, ": "@) {
            None => None,
            Some(p) => {
                let after = rest.subrange(p + 2, rest.len() as int);
                match find(after, " = "@) {
                    None => None,
                    Some(q) => Some(
                        (rest.subrange(0, p), after.subrange(0, q), after.subrange(q + 3, after.len() as int)),
                    ),
                }
            },
        }
    } else {
        None
    }
}

/// The returned expression of a `return <expr>;` line.
pub open spec fn return_target(t: Seq<char>) -> Option<Seq<char>> {
    if starts_with(t, "return "@) && ends_with(t, ";"@) && t.len() >= 8 {
        Some(t.subrange(7, t.len() - 1))
    } else {
        None
    }
}

/// The latest node whose variable is named `x`.
pub open spec fn lookup_name(names: Seq<Option<Seq<char>>>, x: Seq<char>) -> Option<int>
    decreases names.len(),
{
    if names.len() == 0 {
        None
    } else if names.last() == Some(x) {
        Some(names.len() - 1)
    } else {
        lookup_name(names.drop_last(), x)
    }
}

/// What feeds an argument: nothing for the literal `0.0`, else the node
/// whose variable it names. `None` when the argument is neither.
pub open spec fn arg_source(a: Seq<char>, names: Seq<Option<Seq<char>>>) -> Option<Option<int>> {
    if a == "0.0"@ {
        Some(None)
    } else {
        match lookup_name(names, a) {
            Some(j) => Some(Some(j)),
            None => None,
        }
    }
}

/// The sources of all arguments, if each is a variable or `0.0`.
pub open spec fn arg_sources(args: Seq<Seq<char>>, names: Seq<Option<Seq<char>>>) -> Option<
    Seq<Option<int>>,
>
    decreases args.len(),
{
    if args.len() == 0 {
        Some(seq![])
    } else {
        match (arg_sources(args.drop_last(), names), arg_source(args.last(), names)) {
            (Some(s), Some(a)) => Some(s.push(a)),
            _ => None,
        }
    }
}

/// The node kind written as a call of `f` with `n` arguments and value type `ty`.
pub open spec fn call_kind(f: Seq<char>, n: nat, ty: Seq<char>) -> Option<NodeKind> {
    if n == 1 {
        if f == "sin"@ {
            Some(NodeKind::Sine)
        } else if f == "cos"@ {
            Some(NodeKind::Cosine)
        } else if f == "tan"@ {
            Some(NodeKind::Tangent)
        } else if f == "length"@ {
            Some(NodeKind::Length)
        } else if f == "fract"@ {
            Some(NodeKind::Fract)
        } else if f == "floor"@ {
            Some(NodeKind::Floor)
        } else if f == "ceil"@ {
            Some(NodeKind::Ceil)
        } else if f == "abs"@ {
            Some(NodeKind::Abs)
        } else if f == "sqrt"@ {
            Some(NodeKind::Sqrt)
        } else if f == "sign"@ {
            Some(NodeKind::Sign)
        } else if f == "normalize"@ {
            Some(NodeKind::Normalize)
        } else {
            None
        }
    } else if n == 2 {
        if f == "min"@ {
            Some(NodeKind::Min)
        } else if f == "max"@ {
            Some(NodeKind::Max)
        } else if f == "pow"@ {
            Some(NodeKind::Pow)
        } else if f == "distance"@ {
            Some(NodeKind::Distance)
        } else if f == "dot"@ {
            Some(NodeKind::Dot)
        } else if f == "cross"@ {
            Some(NodeKind::Cross)
        } else if f == "step"@ {
            Some(NodeKind::Step)
        } else if f == "reflect"@ {
            Some(NodeKind::Reflect)
        } else {
            None
        }
    } else if n == 3 {
        if f == "mix"@ {
            if ty == "vec3<f32>"@ {
                Some(NodeKind::ColorMix)
            } else {
                Some(NodeKind::Mix)
            }
        } else if f == "smoothstep"@ {
            Some(NodeKind::Smoothstep)
        } else if f == "clamp"@ {
            Some(NodeKind::Clamp)
        } else if f == "refract"@ {
            Some(NodeKind::Refract)
        } else if f == "vec3<f32>"@ {
            Some(NodeKind::RGB)
        } else {
            None
        }
    } else {
        None
    }
}

/// The function name written for each call or operator node is that
/// node's own operation: read back with the number of arguments the node
/// is written with, the name gives the same kind of node again.
pub proof fn lemma_function_names_read_back(k: NodeKind, ty: Seq<char>)
    ensures
        k is Min || k is Max || k is Pow || k is Distance || k is Dot || k is Cross || k is Step || k is Reflect
            ==> call_kind(function_name(k), 2, ty) == Some(k),
        k is Sine || k is Cosine || k is Tangent || k is Length || k is Fract || k is Floor || k is Ceil
            || k is Abs || k is Sqrt || k is Normalize || k is Sign ==> call_kind(function_name(k), 1, ty) == Some(k),
        k is Smoothstep || k is Clamp || k is Refract || k is RGB ==> call_kind(function_name(k), 3, ty) == Some(k),
        (k is Mix && ty != "vec3<f32>"@) || (k is ColorMix && ty == "vec3<f32>"@) ==> call_kind(function_name(k), 3, ty)
            == Some(k),
        k is Add || k is Subtract || k is Multiply || k is Divide ==> infix_kind(function_name(k)) == Some(k),
        k is Mix || k is ColorMix ==> call_kind(function_name(k), 3, value_type(k)) == Some(k),
        k is Add || k is Subtract || k is Multiply || k is Divide ==> value_type(k) == "f32"@,
{
    reveal_strlit("sin");
    reveal_strlit("cos");
    reveal_strlit("tan");
    reveal_strlit("length");
    reveal_strlit("fract");
    reveal_strlit("floor");
    reveal_strlit("ceil");
    reveal_strlit("abs");
    reveal_strlit("sqrt");
    reveal_strlit("sign");
    reveal_strlit("normalize");
    reveal_strlit("min");
    reveal_strlit("max");
    reveal_strlit("pow");
    reveal_strlit("distance");
    reveal_strlit("dot");
    reveal_strlit("cross");
    reveal_strlit("step");
    reveal_strlit("reflect");
    reveal_strlit("mix");
    reveal_strlit("smoothstep");
    reveal_strlit("clamp");
    reveal_strlit("refract");
    reveal_strlit("vec3<f32>");
    reveal_strlit("+");
    reveal_strlit("-");
    reveal_strlit("*");
    reveal_strlit("/");
    reveal_strlit("f32");
    assert("f32"@.len() != "vec3<f32>"@.len());
    match k {
        NodeKind::Cosine => {
            assert("cos"@[0] != "sin"@[0]);
        },
        NodeKind::Tangent => {
            assert("tan"@[0] != "sin"@[0]);
            assert("tan"@[0] != "cos"@[0]);
        },
        NodeKind::Length => {
            assert("length"@.len() != "sin"@.len());
            assert("length"@.len() != "cos"@.len());
            assert("length"@.len() != "tan"@.len());
        },
        NodeKind::Fract => {
            assert("fract"@.len() != "sin"@.len());
            assert("fract"@.len() != "cos"@.len());
            assert("fract"@.len() != "tan"@.len());
            assert("fract"@.len() != "length"@.len());
        },
        NodeKind::Floor => {
            assert("floor"@.len() != "sin"@.len());
            assert("floor"@.len() != "cos"@.len());
            assert("floor"@.len() != "tan"@.len());
            assert("floor"@.len() != "length"@.len());
            assert("floor"@[1] != "fract"@[1]);
        },
        NodeKind::Ceil => {
            assert("ceil"@.len() != "sin"@.len());
            assert("ceil"@.len() != "cos"@.len());
            assert("ceil"@.len() != "tan"@.len());
            assert("ceil"@.len() != "length"@.len());
            assert("ceil"@.len() != "fract"@.len());
            assert("ceil"@.len() != "floor"@.len());
        },
        NodeKind::Abs => {
            assert("abs"@[0] != "sin"@[0]);
            assert("abs"@[0] != "cos"@[0]);
            assert("abs"@[0] != "tan"@[0]);
            assert("abs"@.len() != "length"@.len());
            assert("abs"@.len() != "fract"@.len());
            assert("abs"@.len() != "floor"@.len());
            assert("abs"@.len() != "ceil"@.len());
        },
        NodeKind::Sqrt => {
            assert("sqrt"@.len() != "sin"@.len());
            assert("sqrt"@.len() != "cos"@.len());
            assert("sqrt"@.len() != "tan"@.len());
            assert("sqrt"@.len() != "length"@.len());
            assert("sqrt"@.len() != "fract"@.len());
            assert("sqrt"@.len() != "floor"@.len());
            assert("sqrt"@[0] != "ceil"@[0]);
            assert("sqrt"@.len() != "abs"@.len());
        },
        NodeKind::Sign => {
            assert("sign"@.len() != "sin"@.len());
            assert("sign"@.len() != "cos"@.len());
            assert("sign"@.len() != "tan"@.len());
            assert("sign"@.len() != "length"@.len());
            assert("sign"@.len() != "fract"@.len());
            assert("sign"@.len() != "floor"@.len());
            assert("sign"@[0] != "ceil"@[0]);
            assert("sign"@.len() != "abs"@.len());
            assert("sign"@[1] != "sqrt"@[1]);
        },
        NodeKind::Normalize => {
            assert("normalize"@.len() != "sin"@.len());
            assert("normalize"@.len() != "cos"@.len());
            assert("normalize"@.len() != "tan"@.len());
            assert("normalize"@.len() != "length"@.len());
            assert("normalize"@.len() != "fract"@.len());
            assert("normalize"@.len() != "floor"@.len());
            assert("normalize"@.len() != "ceil"@.len());
            assert("normalize"@.len() != "abs"@.len());
            assert("normalize"@.len() != "sqrt"@.len());
            assert("normalize"@.len() != "sign"@.len());
        },
        NodeKind::Max => {
            assert("max"@[1] != "min"@[1]);
        },
        NodeKind::Pow => {
            assert("pow"@[0] != "min"@[0]);
            assert("pow"@[0] != "max"@[0]);
        },
        NodeKind::Distance => {
            assert("distance"@.len() != "min"@.len());
            assert("distance"@.len() != "max"@.len());
            assert("distance"@.len() != "pow"@.len());
        },
        NodeKind::Dot => {
            assert("dot"@[0] != "min"@[0]);
            assert("dot"@[0] != "max"@[0]);
            assert("dot"@[0] != "pow"@[0]);
            assert("dot"@.len() != "distance"@.len());
        },
        NodeKind::Cross => {
            assert("cross"@.len() != "min"@.len());
            assert("cross"@.len() != "max"@.len());
            assert("cross"@.len() != "pow"@.len());
            assert("cross"@.len() != "distance"@.len());
            assert("cross"@.len() != "dot"@.len());
        },
        NodeKind::Step => {
            assert("step"@.len() != "min"@.len());
            assert("step"@.len() != "max"@.len());
            assert("step"@.len() != "pow"@.len());
            assert("step"@.len() != "distance"@.len());
            assert("step"@.len() != "dot"@.len());
            assert("step"@.len() != "cross"@.len());
        },
        NodeKind::Reflect => {
            assert("reflect"@.len() != "min"@.len());
            assert("reflect"@.len() != "max"@.len());
            assert("reflect"@.len() != "pow"@.len());
            assert("reflect"@.len() != "distance"@.len());
            assert("reflect"@.len() != "dot"@.len());
            assert("reflect"@.len() != "cross"@.len());
            assert("reflect"@.len() != "step"@.len());
        },
        NodeKind::Smoothstep => {
            assert("smoothstep"@.len() != "mix"@.len());
        },
        NodeKind::Clamp => {
            assert("clamp"@.len() != "mix"@.len());
            assert("clamp"@.len() != "smoothstep"@.len());
        },
        NodeKind::Refract => {
            assert("refract"@.len() != "mix"@.len());
            assert("refract"@.len() != "smoothstep"@.len());
            assert("refract"@.len() != "clamp"@.len());
        },
        NodeKind::RGB => {
            assert("vec3<f32>"@.len() != "mix"@.len());
            assert("vec3<f32>"@.len() != "smoothstep"@.len());
            assert("vec3<f32>"@.len() != "clamp"@.len());
            assert("vec3<f32>"@.len() != "refract"@.len());
        },
        NodeKind::Subtract => {
            assert("-"@[0] != "+"@[0]);
        },
        NodeKind::Multiply => {
            assert("*"@[0] != "+"@[0]);
            assert("*"@[0] != "-"@[0]);
        },
        NodeKind::Divide => {
            assert("/"@[0] != "+"@[0]);
            assert("/"@[0] != "-"@[0]);
            assert("/"@[0] != "*"@[0]);
        },
        _ => {},
    }
}

/// The node kind of an infix operator.
pub open spec fn infix_kind(op: Seq<char>) -> Option<NodeKind> {
    if op == "+"@ {
        Some(NodeKind::Add)
    } else if op == "-"@ {
        Some(NodeKind::Subtract)
    } else if op == "*"@ {
        Some(NodeKind::Multiply)
    } else if op == "/"@ {
        Some(NodeKind::Divide)
    } else {
        None
    }
}

/// The component number of a parameter component letter.
pub open spec fn component_index(c: char) -> Option<u32> {
    if c == 'x' {
        Some(0)
    } else if c == 'y' {
        Some(1)
    } else if c == 'z' {
        Some(2)
    } else if c == 'w' {
        Some(3)
    } else {
        None
    }
}

/// The component letter written for a parameter reads back as the
/// parameter's place within its vector.
pub proof fn lemma_component_reads_back(idx: u32)
    ensures
        component(idx).len() == 1,
        component_index(component(idx)[0]) == Some((idx % 4) as u32),
{
    reveal_strlit("x");
    reveal_strlit("y");
    reveal_strlit("z");
    reveal_strlit("w");
}

/// The parameter index of `params[<n>].<c>`.
pub open spec fn param_index(e: Seq<char>) -> Option<u32> {
    if starts_with(e, "params["@) && e.len() >= 11 && e[e.len() - 3] == ']' && e[e.len() - 2]
        == '.' {
        let digits = e.subrange(7, e.len() - 3);
        match component_index(e.last()) {
            Some(c) => if all_digits(digits) && digits.len() > 0 && digits_value(digits) * 4 + c
                <= u32::MAX {
                Some((digits_value(digits) * 4 + c) as u32)
            } else {
                None
            },
            None => None,
        }
    } else {
        None
    }
}

/// The decimals of a constant vector `vec<N><f32>(a,b,...)` with `n` components.
pub open spec fn decimals_of(pieces: Seq<Seq<char>>) -> Option<Seq<Decimal>>
    decreases pieces.len(),
{
    if pieces.len() == 0 {
        Some(seq![])
    } else {
        match (decimals_of(pieces.drop_last()), parse_decimal(pieces.last())) {
            (Some(ds), Some(d)) => Some(ds.push(d)),
            _ => None,
        }
    }
}

/// A call `f(inner)`: the function name and the text between the brackets.
pub open spec fn call_parts(e: Seq<char>) -> Option<(Seq<char>, Seq<char>)> {
    if e.len() >= 2 && e.last() == ')' {
        match find(e, "("@) {
            Some(p) => if p > 0 {
                Some((e.subrange(0, p), e.subrange(p + 1, e.len() - 1)))
            } else {
                None
            },
            None => None,
        }
    } else {
        None
    }
}

/// A constant vector written by the compiler.
pub open spec fn constant_vector(f: Seq<char>, inner: Seq<char>) -> Option<NodeKind> {
    match decimals_of(split(inner, ","@)) {
        Some(ds) => if f == "vec2<f32>"@ && ds.len() == 2 {
            Some(NodeKind::ConstantVec2([ds[0], ds[1]]))
        } else if f == "vec3<f32>"@ && ds.len() == 3 {
            Some(NodeKind::ConstantVec3([ds[0], ds[1], ds[2]]))
        } else if f == "vec4<f32>"@ && ds.len() == 4 {
            Some(NodeKind::ConstantVec4([ds[0], ds[1], ds[2], ds[3]]))
        } else {
            None
        },
        None => None,
    }
}

/// The node that a definition's expression stands for, with the sources of its inputs.
pub open spec fn parse_expr(ty: Seq<char>, e: Seq<char>, names: Seq<Option<Seq<char>>>) -> Option<
    (NodeKind, Seq<Option<int>>),
> {
    if parse_decimal(e) is Some {
        Some((NodeKind::ConstantFloat(parse_decimal(e)->0), seq![]))
    } else if e == "uniforms.time"@ {
        Some((NodeKind::Time, seq![]))
    } else if e == "uv"@ {
        Some((NodeKind::UV, seq![]))
    } else if e == "uniforms.resolution"@ {
        Some((NodeKind::Resolution, seq![]))
    } else if e == "uniforms.resolution * 0.5"@ {
        Some((NodeKind::Mouse, seq![]))
    } else if param_index(e) is Some {
        Some((NodeKind::Param(param_index(e)->0), seq![]))
    } else if call_parts(e) is Some {
        let (f, inner) = call_parts(e)->0;
        if constant_vector(f, inner) is Some {
            Some((constant_vector(f, inner)->0, seq![]))
        } else {
            let args = split(inner, ", "@);
            match (call_kind(f, args.len(), ty), arg_sources(args, names)) {
                (Some(k), Some(srcs)) => Some((k, srcs)),
                _ => None,
            }
        }
    } else {
        let parts = split(e, " "@);
        if parts.len() == 3 && ty == "f32"@ && infix_kind(parts[1]) is Some {
            match arg_sources(seq![parts[0], parts[2]], names) {
                Some(srcs) => Some((infix_kind(parts[1])->0, srcs)),
                None => None,
            }
        } else {
            None
        }
    }
}

// ---------------------------------------------------------------------------
// Executable recognizers
// ---------------------------------------------------------------------------

pub fn definition_parts_exec(t: &[char]) -> (r: Option<(Vec<char>, Vec<char>, Vec<char>)>)
    ensures
        match r {
            Some((a, b, c)) => definition_parts(t@) == Some((a@, b@, c@)),
            None => definition_parts(t@) is None,
        },
{
    if !(starts_with_str(t, "let ") && ends_with_str(t, ";") && t.len() >= 5) {
        return None;
    }
    let rest = sub_vec(t, 4, t.len() - 1);
    let colon = chars_of(": ");
    let eqs = chars_of(" = ");
    proof {
        reveal_strlit(": ");
        reveal_strlit(" = ");
        lemma_find(rest@, colon@);
    }
    match find_exec(rest.as_slice(), colon.as_slice()) {
        None => None,
        Some(p) => {
            assert(occurs_at(rest@, colon@, p as int));
            let after = sub_vec(rest.as_slice(), p + 2, rest.len());
            proof {
                lemma_find(after@, eqs@);
            }
            match find_exec(after.as_slice(), eqs.as_slice()) {
                None => None,
                Some(q) => {
                    assert(occurs_at(after@, eqs@, q as int));
                    let name = sub_vec(rest.as_slice(), 0, p);
                    let ty = sub_vec(after.as_slice(), 0, q);
                    let expr = sub_vec(after.as_slice(), q + 3, after.len());
                    Some((name, ty, expr))
                },
            }
        },
    }
}

pub fn return_target_exec(t: &[char]) -> (r: Option<Vec<char>>)
    ensures
        match r {
            Some(a) => return_target(t@) == Some(a@),
            None => return_target(t@) is None,
        },
{
    if starts_with_str(t, "return ") && ends_with_str(t, ";") && t.len() >= 8 {
        Some(sub_vec(t, 7, t.len() - 1))
    } else {
        None
    }
}

/// The names of the variables defined so far, `None` for output nodes.
pub open spec fn names_view(names: Seq<Option<Vec<char>>>) -> Seq<Option<Seq<char>>> {
    names.map_values(
        |o: Option<Vec<char>>|
            match o {
                Some(v) => Some(v@),
                None => None,
            },
    )
}

pub fn lookup_name_exec(names: &Vec<Option<Vec<char>>>, x: &[char]) -> (r: Option<usize>)
    ensures
        match r {
            Some(j) => lookup_name(names_view(names@), x@) == Some(j as int),
            None => lookup_name(names_view(names@), x@) is None,
        },
{
    let mut i = names.len();
    let ghost nv = names_view(names@);
    assert(nv.subrange(0, i as int) =~= nv);
    while i > 0
        invariant
            i <= names@.len(),
            nv == names_view(names@),
            lookup_name(nv, x@) == lookup_name(nv.subrange(0, i as int), x@),
        decreases i,
    {
        assert(nv.subrange(0, i as int).drop_last() =~= nv.subrange(0, i - 1));
        match &names[i - 1] {
            Some(n) => {
                if crate::text::eq_chars(n.as_slice(), x) {
                    return Some(i - 1);
                }
            },
            None => {},
        }
        i = i - 1;
    }
    None
}

pub open spec fn opt_view(o: Option<usize>) -> Option<int> {
    match o {
        Some(j) => Some(j as int),
        None => None,
    }
}

pub open spec fn sources_view(s: Seq<Option<usize>>) -> Seq<Option<int>> {
    s.map_values(|o: Option<usize>| opt_view(o))
}

fn arg_source_exec(a: &[char], names: &Vec<Option<Vec<char>>>) -> (r: Option<Option<usize>>)
    ensures
        match r {
            Some(o) => arg_source(a@, names_view(names@)) == Some(opt_view(o)),
            None => arg_source(a@, names_view(names@)) is None,
        },
{
    if eq_str(a, "0.0") {
        Some(None)
    } else {
        match lookup_name_exec(names, a) {
            Some(j) => Some(Some(j)),
            None => None,
        }
    }
}

fn arg_sources_exec(args: &Vec<Vec<char>>, names: &Vec<Option<Vec<char>>>) -> (r: Option<
    Vec<Option<usize>>,
>)
    ensures
        match r {
            Some(s) => arg_sources(args@.map_values(|v: Vec<char>| v@), names_view(names@)) == Some(
                sources_view(s@),
            ),
            None => arg_sources(args@.map_values(|v: Vec<char>| v@), names_view(names@)) is None,
        },
{
    let ghost av = args@.map_values(|v: Vec<char>| v@);
    let mut out: Vec<Option<usize>> = Vec::new();
    let mut i: usize = 0;
    while i < args.len()
        invariant
            i <= args@.len(),
            av == args@.map_values(|v: Vec<char>| v@),
            arg_sources(av.subrange(0, i as int), names_view(names@)) == Some(sources_view(out@)),
        decreases args@.len() - i,
    {
        assert(av.subrange(0, i + 1).drop_last() =~= av.subrange(0, i as int));
        match arg_source_exec(args[i].as_slice(), names) {
            Some(o) => {
                out.push(o);
                assert(sources_view(out@) =~= sources_view(out@.drop_last()).push(opt_view(o)));
            },
            None => {
                proof {
                    lemma_arg_sources_none(av, i as int, names_view(names@));
                }
                return None;
            },
        }
        i = i + 1;
    }
    assert(av.subrange(0, args@.len() as int) =~= av);
    Some(out)
}

proof fn lemma_arg_sources_none(av: Seq<Seq<char>>, i: int, names: Seq<Option<Seq<char>>>)
    requires
        0 <= i < av.len(),
        arg_source(av[i], names) is None,
    ensures
        arg_sources(av, names) is None,
    decreases av.len(),
{
    if i < av.len() - 1 {
        assert(av.drop_last()[i] == av[i]);
        lemma_arg_sources_none(av.drop_last(), i, names);
    }
}

fn call_kind_exec(f: &[char], n: usize, ty: &[char]) -> (r: Option<NodeKind>)
    ensures
        r == call_kind(f@, n as nat, ty@),
{
    if n == 1 {
        if eq_str(f, "sin") {
            Some(NodeKind::Sine)
        } else if eq_str(f, "cos") {
            Some(NodeKind::Cosine)
        } else if eq_str(f, "tan") {
            Some(NodeKind::Tangent)
        } else if eq_str(f, "length") {
            Some(NodeKind::Length)
        } else if eq_str(f, "fract") {
            Some(NodeKind::Fract)
        } else if eq_str(f, "floor") {
            Some(NodeKind::Floor)
        } else if eq_str(f, "ceil") {
            Some(NodeKind::Ceil)
        } else if eq_str(f, "abs") {
            Some(NodeKind::Abs)
        } else if eq_str(f, "sqrt") {
            Some(NodeKind::Sqrt)
        } else if eq_str(f, "sign") {
            Some(NodeKind::Sign)
        } else if eq_str(f, "normalize") {
            Some(NodeKind::Normalize)
        } else {
            None
        }
    } else if n == 2 {
        if eq_str(f, "min") {
            Some(NodeKind::Min)
        } else if eq_str(f, "max") {
            Some(NodeKind::Max)
        } else if eq_str(f, "pow") {
            Some(NodeKind::Pow)
        } else if eq_str(f, "distance") {
            Some(NodeKind::Distance)
        } else if eq_str(f, "dot") {
            Some(NodeKind::Dot)
        } else if eq_str(f, "cross") {
            Some(NodeKind::Cross)
        } else if eq_str(f, "step") {
            Some(NodeKind::Step)
        } else if eq_str(f, "reflect") {
            Some(NodeKind::Reflect)
        } else {
            None
        }
    } else if n == 3 {
        if eq_str(f, "mix") {
            if eq_str(ty, "vec3<f32>") {
                Some(NodeKind::ColorMix)
            } else {
                Some(NodeKind::Mix)
            }
        } else if eq_str(f, "smoothstep") {
            Some(NodeKind::Smoothstep)
        } else if eq_str(f, "clamp") {
            Some(NodeKind::Clamp)
        } else if eq_str(f, "refract") {
            Some(NodeKind::Refract)
        } else if eq_str(f, "vec3<f32>") {
            Some(NodeKind::RGB)
        } else {
            None
        }
    } else {
        None
    }
}

fn infix_kind_exec(op: &[char]) -> (r: Option<NodeKind>)
    ensures
        r == infix_kind(op@),
{
    if eq_str(op, "+") {
        Some(NodeKind::Add)
    } else if eq_str(op, "-") {
        Some(NodeKind::Subtract)
    } else if eq_str(op, "*") {
        Some(NodeKind::Multiply)
    } else if eq_str(op, "/") {
        Some(NodeKind::Divide)
    } else {
        None
    }
}

fn component_index_exec(c: char) -> (r: Option<u32>)
    ensures
        r == component_index(c),
{
    if c == 'x' {
        Some(0)
    } else if c == 'y' {
        Some(1)
    } else if c == 'z' {
        Some(2)
    } else if c == 'w' {
        Some(3)
    } else {
        None
    }
}

fn param_index_exec(e: &[char]) -> (r: Option<u32>)
    ensures
        r == param_index(e@),
{
    if starts_with_str(e, "params[") && e.len() >= 11 && e[e.len() - 3] == ']' && e[e.len() - 2]
        == '.' {
        let digits = sub_vec(e, 7, e.len() - 3);
        match component_index_exec(e[e.len() - 1]) {
            Some(c) => {
                if digits.len() > 0 && crate::decimal::all_digits_exec(digits.as_slice()) {
                    match crate::decimal::digits_value_exec(digits.as_slice()) {
                        Some(v) => {
                            if v <= (u32::MAX as u64 - c as u64) / 4 {
                                Some((v * 4 + c as u64) as u32)
                            } else {
                                None
                            }
                        },
                        None => None,
                    }
                } else {
                    None
                }
            },
            None => None,
        }
    } else {
        None
    }
}

fn decimals_of_exec(pieces: &Vec<Vec<char>>) -> (r: Option<Vec<Decimal>>)
    ensures
        match r {
            Some(ds) => decimals_of(pieces@.map_values(|v: Vec<char>| v@)) == Some(ds@),
            None => decimals_of(pieces@.map_values(|v: Vec<char>| v@)) is None,
        },
{
    let ghost pv = pieces@.map_values(|v: Vec<char>| v@);
    let mut out: Vec<Decimal> = Vec::new();
    let mut i: usize = 0;
    while i < pieces.len()
        invariant
            i <= pieces@.len(),
            pv == pieces@.map_values(|v: Vec<char>| v@),
            decimals_of(pv.subrange(0, i as int)) == Some(out@),
        decreases pieces@.len() - i,
    {
        assert(pv.subrange(0, i + 1).drop_last() =~= pv.subrange(0, i as int));
        match parse_decimal_exec(pieces[i].as_slice()) {
            Some(d) => {
                out.push(d);
            },
            None => {
                proof {
                    lemma_decimals_none(pv, i as int);
                }
                return None;
            },
        }
        i = i + 1;
    }
    assert(pv.subrange(0, pieces@.len() as int) =~= pv);
    Some(out)
}

proof fn lemma_decimals_none(pv: Seq<Seq<char>>, i: int)
    requires
        0 <= i < pv.len(),
        parse_decimal(pv[i]) is None,
    ensures
        decimals_of(pv) is None,
    decreases pv.len(),
{
    if i < pv.len() - 1 {
        assert(pv.drop_last()[i] == pv[i]);
        lemma_decimals_none(pv.drop_last(), i);
    }
}

fn call_parts_exec(e: &[char]) -> (r: Option<(Vec<char>, Vec<char>)>)
    ensures
        match r {
            Some((f, inner)) => call_parts(e@) == Some((f@, inner@)),
            None => call_parts(e@) is None,
        },
{
    if e.len() >= 2 && e[e.len() - 1] == ')' {
        let open = chars_of("(");
        match find_exec(e, open.as_slice()) {
            Some(p) => {
                if p > 0 {
                    proof {
                        reveal_strlit("(");
                        lemma_find(e@, open@);
                        assert(occurs_at(e@, open@, p as int));
                        assert(e@.subrange(p as int, p + 1)[0] == '(');
                        if p + 1 > e@.len() - 1 {
                            assert(e@[p as int] == '(');
                        }
                    }
                    Some((sub_vec(e, 0, p), sub_vec(e, p + 1, e.len() - 1)))
                } else {
                    None
                }
            },
            None => None,
        }
    } else {
        None
    }
}

fn constant_vector_exec(f: &[char], inner: &[char]) -> (r: Option<NodeKind>)
    ensures
        r == constant_vector(f@, inner@),
        r matches Some(k) ==> crate::node_graph::kind_wf(k),
{
    let comma = chars_of(",");
    let pieces = split_exec(inner, comma.as_slice());
    proof {
        assert(pieces@.map_values(|v: Vec<char>| v@) =~= split(inner@, ","@));
    }
    match decimals_of_exec(&pieces) {
        Some(ds) => {
            proof {
                lemma_decimals_wf(pieces@.map_values(|v: Vec<char>| v@));
            }
            if eq_str(f, "vec2<f32>") && ds.len() == 2 {
                Some(NodeKind::ConstantVec2([ds[0], ds[1]]))
            } else if eq_str(f, "vec3<f32>") && ds.len() == 3 {
                Some(NodeKind::ConstantVec3([ds[0], ds[1], ds[2]]))
            } else if eq_str(f, "vec4<f32>") && ds.len() == 4 {
                Some(NodeKind::ConstantVec4([ds[0], ds[1], ds[2], ds[3]]))
            } else {
                None
            }
        },
        None => None,
    }
}

proof fn lemma_decimals_wf(pv: Seq<Seq<char>>)
    ensures
        decimals_of(pv) matches Some(ds) ==> forall|i: int| 0 <= i < ds.len() ==> (#[trigger] ds[i]).wf(),
    decreases pv.len(),
{
    if pv.len() > 0 {
        lemma_decimals_wf(pv.drop_last());
        crate::decimal::lemma_parse_decimal_wf(pv.last());
    }
}

/// The node that a definition's expression stands for.
pub fn parse_expr_exec(ty: &[char], e: &[char], names: &Vec<Option<Vec<char>>>) -> (r: Option<
    (NodeKind, Vec<Option<usize>>),
>)
    ensures
        match r {
            Some((k, s)) => parse_expr(ty@, e@, names_view(names@)) == Some((k, sources_view(s@))),
            None => parse_expr(ty@, e@, names_view(names@)) is None,
        },
        r matches Some((k, s)) ==> crate::node_graph::kind_wf(k),
{
    let empty: Vec<Option<usize>> = Vec::new();
    proof {
        assert(sources_view(empty@) =~= Seq::<Option<int>>::empty());
    }
    match parse_decimal_exec(e) {
        Some(d) => {
            return Some((NodeKind::ConstantFloat(d), empty));
        },
        None => {},
    }
    if eq_str(e, "uniforms.time") {
        return Some((NodeKind::Time, empty));
    }
    if eq_str(e, "uv") {
        return Some((NodeKind::UV, empty));
    }
    if eq_str(e, "uniforms.resolution") {
        return Some((NodeKind::Resolution, empty));
    }
    if eq_str(e, "uniforms.resolution * 0.5") {
        return Some((NodeKind::Mouse, empty));
    }
    match param_index_exec(e) {
        Some(i) => {
            return Some((NodeKind::Param(i), empty));
        },
        None => {},
    }
    match call_parts_exec(e) {
        Some((f, inner)) => {
            match constant_vector_exec(f.as_slice(), inner.as_slice()) {
                Some(k) => {
                    return Some((k, empty));
                },
                None => {},
            }
            let sep = chars_of(", ");
            let args = split_exec(inner.as_slice(), sep.as_slice());
            proof {
                assert(args@.map_values(|v: Vec<char>| v@) =~= split(inner@, ", "@));
            }
            match call_kind_exec(f.as_slice(), args.len(), ty) {
                Some(k) => match arg_sources_exec(&args, names) {
                    Some(srcs) => Some((k, srcs)),
                    None => None,
                },
                None => None,
            }
        },
        None => {
            let sp = chars_of(" ");
            let parts = split_exec(e, sp.as_slice());
            if parts.len() == 3 && eq_str(ty, "f32") {
                match infix_kind_exec(parts[1].as_slice()) {
                    Some(k) => {
                        let mut two: Vec<Vec<char>> = Vec::new();
                        two.push(sub_vec(parts[0].as_slice(), 0, parts[0].len()));
                        two.push(sub_vec(parts[2].as_slice(), 0, parts[2].len()));
                        proof {
                            assert(parts[0]@.subrange(0, parts[0]@.len() as int) =~= parts[0]@);
                            assert(parts[2]@.subrange(0, parts[2]@.len() as int) =~= parts[2]@);
                            assert(two@.map_values(|v: Vec<char>| v@) =~= seq![
                                split(e@, " "@)[0],
                                split(e@, " "@)[2],
                            ]);
                        }
                        match arg_sources_exec(&two, names) {
                            Some(srcs) => Some((k, srcs)),
                            None => None,
                        }
                    },
                    None => None,
                }
            } else {
                None
            }
        },
    }
}

} // verus!
