//! WGSL generation for node graphs: the evaluation order of the nodes, the
//! variable that each output port gets, and the text of each node.
use vstd::prelude::*;
use crate::decimal::Decimal;
use crate::graph_analysis::{input_connected, is_input_connected, vec_contains};
use crate::node_graph::{input_names, node_wf, output_names, Node, NodeGraph, NodeId, NodeKind, PortId};
use crate::text::{chars_of, nat_text, push_chars, push_nat, push_str, string_of};

verus! {

pub const UNIFORMS_DECL: &'static str = "struct Uniforms {\n  time: f32,\n  resolution: vec2<f32>,\n};\n\n";

pub const UNIFORMS_BINDING: &'static str = "@group(0) @binding(0) var<uniform> uniforms: Uniforms;\n\n";

pub const PARAMS_BINDING: &'static str = "@group(0) @binding(1) var<uniform> params: array<vec4<f32>, 16>;\n\n";

pub const VERTEX_STAGE: &'static str = "@vertex\nfn vs_main(@builtin(vertex_index) i: u32) -> @builtin(position) vec4<f32> {\n  var positions = array<vec2<f32>, 3>(\n    vec2<f32>(-1.0, -3.0),\n    vec2<f32>(-1.0,  1.0),\n    vec2<f32>( 3.0,  1.0),\n  );\n  let pos = positions[i];\n  return vec4<f32>(pos, 0.0, 1.0);\n}\n\n";

pub const TEXTURE_BINDINGS: &'static str = "@group(0) @binding(2) var samp: sampler;\n@group(0) @binding(3) var tex0: texture_2d<f32>;\n\n";

pub const FRAGMENT_START: &'static str = "@fragment\nfn fs_main(@builtin(position) pos: vec4<f32>) -> @location(0) vec4<f32> {\n  let uv = pos.xy / uniforms.resolution;\n";

pub const FRAGMENT_END: &'static str = "  return vec4<f32>(uv.x, uv.y, 0.5, 1.0);\n}\n";

/// The variable given to an output port: `v<num>`.
#[derive(Clone, Copy, Debug)]
pub struct PortVar {
    pub node: u64,
    pub port: u64,
    pub num: u128,
}

pub open spec fn var_name(num: nat) -> Seq<char> {
    seq!['v'] + nat_text(num)
}

/// The latest variable recorded for a port.
pub open spec fn lookup_var(vars: Seq<PortVar>, node: u64, port: u64) -> Option<u128>
    decreases vars.len(),
{
    if vars.len() == 0 {
        None
    } else if vars.last().node == node && vars.last().port == port {
        Some(vars.last().num)
    } else {
        lookup_var(vars.drop_last(), node, port)
    }
}

/// The source text for an input port, scanning connections from index `k`.
pub open spec fn source_from(g: NodeGraph, vars: Seq<PortVar>, node: NodeId, port: PortId, k: nat) -> Seq<
    char,
>
    decreases g.connections@.len() - k,
{
    if k >= g.connections@.len() {
        "0.0"@
    } else {
        let c = g.connections@[k as int];
        if c.to_node == node && c.to_port == port && lookup_var(
            vars,
            c.from_node.0,
            c.from_port.0,
        ) is Some {
            var_name(lookup_var(vars, c.from_node.0, c.from_port.0)->0 as nat)
        } else {
            source_from(g, vars, node, port, k + 1)
        }
    }
}

/// The variable that feeds input `port` of `node`: the first connection into
/// that port whose source port already has a variable; `0.0` otherwise.
pub open spec fn source_text(g: NodeGraph, vars: Seq<PortVar>, node: NodeId, port: PortId) -> Seq<
    char,
> {
    source_from(g, vars, node, port, 0)
}

fn lookup_var_exec(vars: &Vec<PortVar>, node: u64, port: u64) -> (r: Option<u128>)
    ensures
        r == lookup_var(vars@, node, port),
{
    let mut i = vars.len();
    assert(vars@.subrange(0, i as int) =~= vars@);
    while i > 0
        invariant
            i <= vars@.len(),
            lookup_var(vars@, node, port) == lookup_var(vars@.subrange(0, i as int), node, port),
        decreases i,
    {
        let v = vars[i - 1];
        if v.node == node && v.port == port {
            return Some(v.num);
        }
        assert(vars@.subrange(0, i as int).drop_last() =~= vars@.subrange(0, i - 1));
        i = i - 1;
    }
    None
}

/// The text that feeds input `to_port` of `to_node`.
pub fn find_source_text(g: &NodeGraph, to_node: NodeId, to_port: PortId, port_vars: &Vec<PortVar>) -> (r:
    Vec<char>)
    ensures
        r@ == source_text(*g, port_vars@, to_node, to_port),
{
    let mut k: usize = 0;
    while k < g.connections.len()
        invariant
            k <= g.connections@.len(),
            source_text(*g, port_vars@, to_node, to_port) == source_from(
                *g,
                port_vars@,
                to_node,
                to_port,
                k as nat,
            ),
        decreases g.connections@.len() - k,
    {
        let c = g.connections[k];
        if c.to_node.0 == to_node.0 && c.to_port.0 == to_port.0 {
            match lookup_var_exec(port_vars, c.from_node.0, c.from_port.0) {
                Some(num) => {
                    let mut r: Vec<char> = Vec::new();
                    r.push('v');
                    push_nat(&mut r, num);
                    assert(r@ =~= var_name(num as nat));
                    return r;
                },
                None => {},
            }
        }
        k = k + 1;
    }
    chars_of("0.0")
}

// ---------------------------------------------------------------------------
// Evaluation order
// ---------------------------------------------------------------------------

/// No input of `n` is connected.
pub open spec fn is_initial(g: NodeGraph, n: Node) -> bool {
    forall|j: int| 0 <= j < n.inputs@.len() ==> !input_connected(g, n.id, #[trigger] n.inputs@[j].id)
}

/// Some connection into input `port` of `node` comes from a node in `sat`.
pub open spec fn input_fed(g: NodeGraph, node: NodeId, port: PortId, sat: Seq<u64>) -> bool {
    exists|k: int|
        #![trigger g.connections@[k]]
        0 <= k < g.connections@.len() && g.connections@[k].to_node == node
            && g.connections@[k].to_port == port && sat.contains(g.connections@[k].from_node.0)
}

/// Every input of `n` is fed from a node in `sat`.
pub open spec fn is_ready(g: NodeGraph, n: Node, sat: Seq<u64>) -> bool {
    forall|j: int| 0 <= j < n.inputs@.len() ==> input_fed(g, n.id, #[trigger] n.inputs@[j].id, sat)
}

/// The nodes among the first `i` with no connected input (evaluated first),
/// and the others, both in node order.
pub open spec fn initial_split(g: NodeGraph, i: nat) -> (Seq<int>, Seq<int>)
    decreases i,
{
    if i == 0 {
        (seq![], seq![])
    } else {
        let (a, b) = initial_split(g, (i - 1) as nat);
        if is_initial(g, g.nodes@[i - 1]) {
            (a.push(i - 1), b)
        } else {
            (a, b.push(i - 1))
        }
    }
}

/// The identifiers of the nodes at the given positions.
pub open spec fn ids_of(g: NodeGraph, idx: Seq<int>) -> Seq<u64> {
    idx.map_values(|i: int| g.nodes@[i].id.0)
}

/// One pass over the waiting nodes, in order: a node whose inputs are all fed
/// by evaluated nodes is evaluated at once; the others keep waiting.
pub open spec fn round_upto(
    g: NodeGraph,
    rem: Seq<int>,
    k: nat,
    sat: Seq<u64>,
    ord: Seq<int>,
) -> (Seq<u64>, Seq<int>, Seq<int>, bool)
    decreases k,
{
    if k == 0 {
        (sat, ord, seq![], false)
    } else {
        let (s, o, keep, prog) = round_upto(g, rem, (k - 1) as nat, sat, ord);
        let i = rem[k - 1];
        if is_ready(g, g.nodes@[i], s) {
            (s.push(g.nodes@[i].id.0), o.push(i), keep, true)
        } else {
            (s, o, keep.push(i), prog)
        }
    }
}

/// The limit on passes over the waiting nodes.
pub const MAX_ROUNDS: u64 = 1024;

/// Repeated passes until nothing waits, a pass evaluates nothing, or the limit is reached.
pub open spec fn rounds(g: NodeGraph, sat: Seq<u64>, ord: Seq<int>, rem: Seq<int>, guard: nat) -> Seq<
    int,
>
    decreases MAX_ROUNDS - guard,
{
    if rem.len() == 0 || guard >= MAX_ROUNDS {
        ord
    } else {
        let (s, o, keep, prog) = round_upto(g, rem, rem.len(), sat, ord);
        if !prog {
            o
        } else {
            rounds(g, s, o, keep, guard + 1)
        }
    }
}

/// The positions of the nodes in the order their code is emitted.
pub open spec fn eval_order(g: NodeGraph) -> Seq<int> {
    let (init, rest) = initial_split(g, g.nodes@.len());
    rounds(g, ids_of(g, init), init, rest, 0)
}

fn is_initial_exec(g: &NodeGraph, n: &Node) -> (b: bool)
    ensures
        b == is_initial(*g, *n),
{
    let mut j: usize = 0;
    while j < n.inputs.len()
        invariant
            j <= n.inputs@.len(),
            forall|jj: int| 0 <= jj < j ==> !input_connected(*g, n.id, #[trigger] n.inputs@[jj].id),
        decreases n.inputs@.len() - j,
    {
        if is_input_connected(g, n.id, n.inputs[j].id) {
            return false;
        }
        j = j + 1;
    }
    true
}

fn input_fed_exec(g: &NodeGraph, node: NodeId, port: PortId, sat: &Vec<u64>) -> (b: bool)
    ensures
        b == input_fed(*g, node, port, sat@),
{
    let mut k: usize = 0;
    while k < g.connections.len()
        invariant
            k <= g.connections@.len(),
            forall|kk: int|
                #![trigger g.connections@[kk]]
                0 <= kk < k ==> !(g.connections@[kk].to_node == node && g.connections@[kk].to_port
                    == port && sat@.contains(g.connections@[kk].from_node.0)),
        decreases g.connections@.len() - k,
    {
        let c = g.connections[k];
        if c.to_node.0 == node.0 && c.to_port.0 == port.0 && vec_contains(sat, c.from_node.0) {
            return true;
        }
        k = k + 1;
    }
    false
}

fn is_ready_exec(g: &NodeGraph, n: &Node, sat: &Vec<u64>) -> (b: bool)
    ensures
        b == is_ready(*g, *n, sat@),
{
    let mut j: usize = 0;
    while j < n.inputs.len()
        invariant
            j <= n.inputs@.len(),
            forall|jj: int| 0 <= jj < j ==> input_fed(*g, n.id, #[trigger] n.inputs@[jj].id, sat@),
        decreases n.inputs@.len() - j,
    {
        if !input_fed_exec(g, n.id, n.inputs[j].id, sat) {
            return false;
        }
        j = j + 1;
    }
    true
}

/// The positions of the nodes in evaluation order.
pub fn evaluation_order(g: &NodeGraph) -> (r: Vec<usize>)
    ensures
        r@.len() == eval_order(*g).len(),
        forall|i: int| 0 <= i < r@.len() ==> #[trigger] r@[i] as int == eval_order(*g)[i],
        forall|i: int| 0 <= i < r@.len() ==> #[trigger] r@[i] < g.nodes@.len(),
{
    let mut order: Vec<usize> = Vec::new();
    let mut satisfied: Vec<u64> = Vec::new();
    let mut remaining: Vec<usize> = Vec::new();
    let mut i: usize = 0;
    while i < g.nodes.len()
        invariant
            i <= g.nodes@.len(),
            order@.map_values(|x: usize| x as int) == initial_split(*g, i as nat).0,
            remaining@.map_values(|x: usize| x as int) == initial_split(*g, i as nat).1,
            satisfied@ == ids_of(*g, initial_split(*g, i as nat).0),
            forall|j: int| 0 <= j < order@.len() ==> #[trigger] order@[j] < i,
            forall|j: int| 0 <= j < remaining@.len() ==> #[trigger] remaining@[j] < i,
        decreases g.nodes@.len() - i,
    {
        if is_initial_exec(g, &g.nodes[i]) {
            satisfied.push(g.nodes[i].id.0);
            order.push(i);
        } else {
            remaining.push(i);
        }
        i = i + 1;
        assert(order@.map_values(|x: usize| x as int) =~= initial_split(*g, i as nat).0);
        assert(remaining@.map_values(|x: usize| x as int) =~= initial_split(*g, i as nat).1);
        assert(satisfied@ =~= ids_of(*g, initial_split(*g, i as nat).0));
    }
    let mut guard: u64 = 0;
    let mut done = false;
    while !done && remaining.len() > 0 && guard < MAX_ROUNDS
        invariant
            guard <= MAX_ROUNDS,
            !done ==> rounds(*g, satisfied@, order@.map_values(|x: usize| x as int), remaining@.map_values(|x: usize| x as int), guard as nat)
                == eval_order(*g),
            done ==> order@.map_values(|x: usize| x as int) == eval_order(*g),
            forall|j: int| 0 <= j < order@.len() ==> #[trigger] order@[j] < g.nodes@.len(),
            forall|j: int| 0 <= j < remaining@.len() ==> #[trigger] remaining@[j] < g.nodes@.len(),
        decreases MAX_ROUNDS - guard,
    {
        let ghost sat0 = satisfied@;
        let ghost ord0 = order@.map_values(|x: usize| x as int);
        let ghost rem0 = remaining@.map_values(|x: usize| x as int);
        guard = guard + 1;
        let mut progressed = false;
        let mut keep: Vec<usize> = Vec::new();
        let mut k: usize = 0;
        while k < remaining.len()
            invariant
                k <= remaining@.len(),
                rem0 == remaining@.map_values(|x: usize| x as int),
                (satisfied@, order@.map_values(|x: usize| x as int), keep@.map_values(|x: usize| x as int), progressed)
                    == round_upto(*g, rem0, k as nat, sat0, ord0),
                forall|j: int| 0 <= j < order@.len() ==> #[trigger] order@[j] < g.nodes@.len(),
                forall|j: int| 0 <= j < remaining@.len() ==> #[trigger] remaining@[j] < g.nodes@.len(),
                forall|j: int| 0 <= j < keep@.len() ==> #[trigger] keep@[j] < g.nodes@.len(),
            decreases remaining@.len() - k,
        {
            let id = remaining[k];
            if is_ready_exec(g, &g.nodes[id], &satisfied) {
                satisfied.push(g.nodes[id].id.0);
                order.push(id);
                progressed = true;
            } else {
                keep.push(id);
            }
            k = k + 1;
            assert(order@.map_values(|x: usize| x as int) =~= round_upto(*g, rem0, k as nat, sat0, ord0).1);
            assert(keep@.map_values(|x: usize| x as int) =~= round_upto(*g, rem0, k as nat, sat0, ord0).2);
        }
        assert(rem0.len() == remaining@.len());
        assert(rounds(*g, sat0, ord0, rem0, (guard - 1) as nat) == if !progressed {
            order@.map_values(|x: usize| x as int)
        } else {
            rounds(*g, satisfied@, order@.map_values(|x: usize| x as int), keep@.map_values(|x: usize| x as int), guard as nat)
        });
        remaining = keep;
        if !progressed {
            done = true;
        }
    }
    order
}

// ---------------------------------------------------------------------------
// Node text
// ---------------------------------------------------------------------------

/// `  let <var>: <ty> = <expr>;\n`
pub open spec fn let_line(var: Seq<char>, ty: Seq<char>, expr: Seq<char>) -> Seq<char> {
    "  let "@ + var + ": "@ + ty + " = "@ + expr + ";\n"@
}

pub open spec fn call1(f: Seq<char>, a: Seq<char>) -> Seq<char> {
    f + "("@ + a + ")"@
}

pub open spec fn call2(f: Seq<char>, a: Seq<char>, b: Seq<char>) -> Seq<char> {
    f + "("@ + a + ", "@ + b + ")"@
}

pub open spec fn call3(f: Seq<char>, a: Seq<char>, b: Seq<char>, c: Seq<char>) -> Seq<char> {
    f + "("@ + a + ", "@ + b + ", "@ + c + ")"@
}

/// The WGSL type of the (first) variable a node defines.
pub open spec fn value_type(kind: NodeKind) -> Seq<char> {
    match kind {
        NodeKind::ConstantVec2(_) | NodeKind::UV | NodeKind::Resolution | NodeKind::Mouse
        | NodeKind::TextureSize => "vec2<f32>"@,
        NodeKind::ConstantVec3(_) | NodeKind::Normalize | NodeKind::Cross | NodeKind::Reflect
        | NodeKind::Refract | NodeKind::RGB | NodeKind::HSV | NodeKind::ColorMix
        | NodeKind::ColorAdjust => "vec3<f32>"@,
        NodeKind::ConstantVec4(_) | NodeKind::TextureSample | NodeKind::TextureSampleLod => "vec4<f32>"@,
        _ => "f32"@,
    }
}

/// The WGSL function a node applies, for nodes written as a call.
pub open spec fn function_name(kind: NodeKind) -> Seq<char> {
    match kind {
        NodeKind::Min => "min"@,
        NodeKind::Max => "max"@,
        NodeKind::Pow => "pow"@,
        NodeKind::Distance => "distance"@,
        NodeKind::Sine => "sin"@,
        NodeKind::Cosine => "cos"@,
        NodeKind::Tangent => "tan"@,
        NodeKind::Length => "length"@,
        NodeKind::Fract => "fract"@,
        NodeKind::Floor => "floor"@,
        NodeKind::Ceil => "ceil"@,
        NodeKind::Abs => "abs"@,
        NodeKind::Sqrt => "sqrt"@,
        NodeKind::Normalize => "normalize"@,
        NodeKind::Dot => "dot"@,
        NodeKind::Cross => "cross"@,
        NodeKind::Mix | NodeKind::ColorMix => "mix"@,
        NodeKind::Step => "step"@,
        NodeKind::Smoothstep => "smoothstep"@,
        NodeKind::Clamp => "clamp"@,
        NodeKind::Reflect => "reflect"@,
        NodeKind::Refract => "refract"@,
        NodeKind::Sign => "sign"@,
        NodeKind::RGB => "vec3<f32>"@,
        NodeKind::Add => "+"@,
        NodeKind::Subtract => "-"@,
        NodeKind::Multiply => "*"@,
        _ => "/"@,
    }
}

/// The component letter of parameter `idx` within its vector.
pub open spec fn component(idx: u32) -> Seq<char> {
    if idx % 4 == 0 {
        "x"@
    } else if idx % 4 == 1 {
        "y"@
    } else if idx % 4 == 2 {
        "z"@
    } else {
        "w"@
    }
}

/// The expression that defines the (first) variable of a node.
pub open spec fn expr_text(kind: NodeKind, s: Seq<Seq<char>>) -> Seq<char> {
    match kind {
        NodeKind::ConstantFloat(f) => f.text(),
        NodeKind::ConstantVec2(v) => "vec2<f32>("@ + v[0].text() + ","@ + v[1].text() + ")"@,
        NodeKind::ConstantVec3(v) => "vec3<f32>("@ + v[0].text() + ","@ + v[1].text() + ","@
            + v[2].text() + ")"@,
        NodeKind::ConstantVec4(v) => "vec4<f32>("@ + v[0].text() + ","@ + v[1].text() + ","@
            + v[2].text() + ","@ + v[3].text() + ")"@,
        NodeKind::Time => "uniforms.time"@,
        NodeKind::UV => "uv"@,
        NodeKind::Param(idx) => "params["@ + nat_text((idx / 4) as nat) + "]."@ + component(idx),
        NodeKind::Add | NodeKind::Subtract | NodeKind::Multiply | NodeKind::Divide => s[0] + " "@
            + function_name(kind) + " "@ + s[1],
        NodeKind::Min | NodeKind::Max | NodeKind::Pow | NodeKind::Distance | NodeKind::Dot
        | NodeKind::Cross | NodeKind::Step | NodeKind::Reflect => call2(function_name(kind), s[0], s[1]),
        NodeKind::Sine | NodeKind::Cosine | NodeKind::Tangent | NodeKind::Length | NodeKind::Fract
        | NodeKind::Floor | NodeKind::Ceil | NodeKind::Abs | NodeKind::Sqrt | NodeKind::Normalize
        | NodeKind::Sign => call1(function_name(kind), s[0]),
        NodeKind::Mix | NodeKind::Smoothstep | NodeKind::Clamp | NodeKind::Refract | NodeKind::RGB
        | NodeKind::ColorMix => call3(function_name(kind), s[0], s[1], s[2]),
        NodeKind::TextureSample => "textureSample(tex0, samp, "@ + s[1] + ")"@,
        NodeKind::TextureSampleLod => "textureSampleLevel(tex0, samp, "@ + s[1] + ", "@ + s[2]
            + ")"@,
        NodeKind::TextureSize => "vec2<f32>(textureDimensions(tex0))"@,
        NodeKind::Resolution => "uniforms.resolution"@,
        NodeKind::Mouse => "uniforms.resolution * 0.5"@,
        NodeKind::ColorAdjust => "("@ + s[0] + " * "@ + s[2] + " + "@ + s[1] + ") * "@ + s[3],
        NodeKind::Noise2D => "fract(sin(dot("@ + s[0] + ", vec2<f32>(12.9898, 78.233))) * 43758.5453)"@,
        NodeKind::Noise3D => "fract(sin(dot("@ + s[0]
            + ", vec3<f32>(12.9898, 78.233, 45.164))) * 43758.5453)"@,
        NodeKind::HSV => "vec3<f32>(c, x, 0.0) + m"@,
        NodeKind::Voronoi => "length(fract("@ + s[0] + ") - 0.5)"@,
        NodeKind::OutputColor => s[0],
    }
}

/// The code a node contributes, given the names of its output variables and
/// the sources of its inputs.
pub open spec fn node_text(kind: NodeKind, names: Seq<Seq<char>>, s: Seq<Seq<char>>) -> Seq<char> {
    match kind {
        NodeKind::OutputColor => "  return "@ + s[0] + ";\n"@,
        NodeKind::HSV => "  let c = "@ + s[2] + " * "@ + s[1] + ";\n"@ + "  let x = c * (1.0 - abs(mod("@
            + s[0] + " * 6.0, 2.0) - 1.0));\n"@ + "  let m = "@ + s[2] + " - c;\n"@ + let_line(
            names[0],
            value_type(kind),
            expr_text(kind, s),
        ),
        NodeKind::Voronoi => let_line(names[0], value_type(kind), expr_text(kind, s)) + let_line(
            names[1],
            "f32"@,
            "floor("@ + s[0] + ".x) + floor("@ + s[0] + ".y) * 100.0"@,
        ),
        _ => let_line(names[0], value_type(kind), expr_text(kind, s)),
    }
}

fn value_type_str(kind: &NodeKind) -> (r: &'static str)
    ensures
        r@ == value_type(*kind),
{
    match kind {
        NodeKind::ConstantVec2(_) | NodeKind::UV | NodeKind::Resolution | NodeKind::Mouse
        | NodeKind::TextureSize => "vec2<f32>",
        NodeKind::ConstantVec3(_) | NodeKind::Normalize | NodeKind::Cross | NodeKind::Reflect
        | NodeKind::Refract | NodeKind::RGB | NodeKind::HSV | NodeKind::ColorMix
        | NodeKind::ColorAdjust => "vec3<f32>",
        NodeKind::ConstantVec4(_) | NodeKind::TextureSample | NodeKind::TextureSampleLod => "vec4<f32>",
        _ => "f32",
    }
}

fn function_name_str(kind: &NodeKind) -> (r: &'static str)
    ensures
        r@ == function_name(*kind),
{
    match kind {
        NodeKind::Min => "min",
        NodeKind::Max => "max",
        NodeKind::Pow => "pow",
        NodeKind::Distance => "distance",
        NodeKind::Sine => "sin",
        NodeKind::Cosine => "cos",
        NodeKind::Tangent => "tan",
        NodeKind::Length => "length",
        NodeKind::Fract => "fract",
        NodeKind::Floor => "floor",
        NodeKind::Ceil => "ceil",
        NodeKind::Abs => "abs",
        NodeKind::Sqrt => "sqrt",
        NodeKind::Normalize => "normalize",
        NodeKind::Dot => "dot",
        NodeKind::Cross => "cross",
        NodeKind::Mix | NodeKind::ColorMix => "mix",
        NodeKind::Step => "step",
        NodeKind::Smoothstep => "smoothstep",
        NodeKind::Clamp => "clamp",
        NodeKind::Reflect => "reflect",
        NodeKind::Refract => "refract",
        NodeKind::Sign => "sign",
        NodeKind::RGB => "vec3<f32>",
        NodeKind::Add => "+",
        NodeKind::Subtract => "-",
        NodeKind::Multiply => "*",
        _ => "/",
    }
}

fn component_str(idx: u32) -> (r: &'static str)
    ensures
        r@ == component(idx),
{
    if idx % 4 == 0 {
        "x"
    } else if idx % 4 == 1 {
        "y"
    } else if idx % 4 == 2 {
        "z"
    } else {
        "w"
    }
}

/// Appends the expression of a node.
#[verifier::spinoff_prover]
#[verifier::rlimit(60)]
fn write_expr(out: &mut Vec<char>, kind: &NodeKind, s: &Vec<Vec<char>>)
    requires
        kind_ok(*kind),
        s@.len() == input_names(*kind).len(),
    ensures
        final(out)@ == old(out)@ + expr_text(*kind, views(s@)),
{
    let ghost sv = views(s@);
    let ghost start = out@;
    match kind {
        NodeKind::ConstantFloat(f) => {
            f.write_to(out);
        },
        NodeKind::ConstantVec2(v) => {
            push_str(out, "vec2<f32>(");
            v[0].write_to(out);
            push_str(out, ",");
            v[1].write_to(out);
            push_str(out, ")");
        },
        NodeKind::ConstantVec3(v) => {
            push_str(out, "vec3<f32>(");
            v[0].write_to(out);
            push_str(out, ",");
            v[1].write_to(out);
            push_str(out, ",");
            v[2].write_to(out);
            push_str(out, ")");
        },
        NodeKind::ConstantVec4(v) => {
            push_str(out, "vec4<f32>(");
            v[0].write_to(out);
            push_str(out, ",");
            v[1].write_to(out);
            push_str(out, ",");
            v[2].write_to(out);
            push_str(out, ",");
            v[3].write_to(out);
            push_str(out, ")");
        },
        NodeKind::Time => {
            push_str(out, "uniforms.time");
        },
        NodeKind::UV => {
            push_str(out, "uv");
        },
        NodeKind::Param(idx) => {
            let vec_index = *idx / 4;
            push_str(out, "params[");
            push_nat(out, vec_index as u128);
            push_str(out, "].");
            push_str(out, component_str(*idx));
        },
        NodeKind::Add | NodeKind::Subtract | NodeKind::Multiply | NodeKind::Divide => {
            push_chars(out, s[0].as_slice());
            push_str(out, " ");
            push_str(out, function_name_str(kind));
            push_str(out, " ");
            push_chars(out, s[1].as_slice());
        },
        NodeKind::Min | NodeKind::Max | NodeKind::Pow | NodeKind::Distance | NodeKind::Dot
        | NodeKind::Cross | NodeKind::Step | NodeKind::Reflect => {
            push_str(out, function_name_str(kind));
            push_str(out, "(");
            push_chars(out, s[0].as_slice());
            push_str(out, ", ");
            push_chars(out, s[1].as_slice());
            push_str(out, ")");
        },
        NodeKind::Sine | NodeKind::Cosine | NodeKind::Tangent | NodeKind::Length | NodeKind::Fract
        | NodeKind::Floor | NodeKind::Ceil | NodeKind::Abs | NodeKind::Sqrt | NodeKind::Normalize
        | NodeKind::Sign => {
            push_str(out, function_name_str(kind));
            push_str(out, "(");
            push_chars(out, s[0].as_slice());
            push_str(out, ")");
        },
        NodeKind::Mix | NodeKind::Smoothstep | NodeKind::Clamp | NodeKind::Refract | NodeKind::RGB
        | NodeKind::ColorMix => {
            push_str(out, function_name_str(kind));
            push_str(out, "(");
            push_chars(out, s[0].as_slice());
            push_str(out, ", ");
            push_chars(out, s[1].as_slice());
            push_str(out, ", ");
            push_chars(out, s[2].as_slice());
            push_str(out, ")");
        },
        NodeKind::TextureSample => {
            push_str(out, "textureSample(tex0, samp, ");
            push_chars(out, s[1].as_slice());
            push_str(out, ")");
        },
        NodeKind::TextureSampleLod => {
            push_str(out, "textureSampleLevel(tex0, samp, ");
            push_chars(out, s[1].as_slice());
            push_str(out, ", ");
            push_chars(out, s[2].as_slice());
            push_str(out, ")");
        },
        NodeKind::TextureSize => {
            push_str(out, "vec2<f32>(textureDimensions(tex0))");
        },
        NodeKind::Resolution => {
            push_str(out, "uniforms.resolution");
        },
        NodeKind::Mouse => {
            push_str(out, "uniforms.resolution * 0.5");
        },
        NodeKind::ColorAdjust => {
            push_str(out, "(");
            push_chars(out, s[0].as_slice());
            push_str(out, " * ");
            push_chars(out, s[2].as_slice());
            push_str(out, " + ");
            push_chars(out, s[1].as_slice());
            push_str(out, ") * ");
            push_chars(out, s[3].as_slice());
        },
        NodeKind::Noise2D => {
            push_str(out, "fract(sin(dot(");
            push_chars(out, s[0].as_slice());
            push_str(out, ", vec2<f32>(12.9898, 78.233))) * 43758.5453)");
        },
        NodeKind::Noise3D => {
            push_str(out, "fract(sin(dot(");
            push_chars(out, s[0].as_slice());
            push_str(out, ", vec3<f32>(12.9898, 78.233, 45.164))) * 43758.5453)");
        },
        NodeKind::HSV => {
            push_str(out, "vec3<f32>(c, x, 0.0) + m");
        },
        NodeKind::Voronoi => {
            push_str(out, "length(fract(");
            push_chars(out, s[0].as_slice());
            push_str(out, ") - 0.5)");
        },
        NodeKind::OutputColor => {
            push_chars(out, s[0].as_slice());
        },
    }
    assert(out@ =~= start + expr_text(*kind, sv));
}

pub open spec fn views(s: Seq<Vec<char>>) -> Seq<Seq<char>> {
    s.map_values(|v: Vec<char>| v@)
}

/// The constants of a node are in range.
pub open spec fn kind_ok(kind: NodeKind) -> bool {
    crate::node_graph::kind_wf(kind)
}

fn write_let(out: &mut Vec<char>, var: &Vec<char>, ty: &str, kind: &NodeKind, s: &Vec<Vec<char>>)
    requires
        kind_ok(*kind),
        s@.len() == input_names(*kind).len(),
    ensures
        final(out)@ == old(out)@ + let_line(var@, ty@, expr_text(*kind, views(s@))),
{
    let ghost start = out@;
    push_str(out, "  let ");
    push_chars(out, var.as_slice());
    push_str(out, ": ");
    push_str(out, ty);
    push_str(out, " = ");
    write_expr(out, kind, s);
    push_str(out, ";\n");
    assert(out@ =~= start + let_line(var@, ty@, expr_text(*kind, views(s@))));
}

/// Appends the code of a node.
#[verifier::spinoff_prover]
fn write_node(out: &mut Vec<char>, kind: &NodeKind, names: &Vec<Vec<char>>, s: &Vec<Vec<char>>)
    requires
        kind_ok(*kind),
        s@.len() == input_names(*kind).len(),
        names@.len() == output_names(*kind).len(),
    ensures
        final(out)@ == old(out)@ + node_text(*kind, views(names@), views(s@)),
{
    let ghost start = out@;
    let ghost sv = views(s@);
    let ghost nv = views(names@);
    match kind {
        NodeKind::OutputColor => {
            push_str(out, "  return ");
            push_chars(out, s[0].as_slice());
            push_str(out, ";\n");
            assert(out@ =~= start + node_text(*kind, nv, sv));
        },
        NodeKind::HSV => {
            push_str(out, "  let c = ");
            push_chars(out, s[2].as_slice());
            push_str(out, " * ");
            push_chars(out, s[1].as_slice());
            push_str(out, ";\n");
            push_str(out, "  let x = c * (1.0 - abs(mod(");
            push_chars(out, s[0].as_slice());
            push_str(out, " * 6.0, 2.0) - 1.0));\n");
            push_str(out, "  let m = ");
            push_chars(out, s[2].as_slice());
            push_str(out, " - c;\n");
            write_let(out, &names[0], value_type_str(kind), kind, s);
            assert(out@ =~= start + node_text(*kind, nv, sv));
        },
        NodeKind::Voronoi => {
            write_let(out, &names[0], value_type_str(kind), kind, s);
            push_str(out, "  let ");
            push_chars(out, names[1].as_slice());
            push_str(out, ": ");
            push_str(out, "f32");
            push_str(out, " = ");
            push_str(out, "floor(");
            push_chars(out, s[0].as_slice());
            push_str(out, ".x) + floor(");
            push_chars(out, s[0].as_slice());
            push_str(out, ".y) * 100.0");
            push_str(out, ";\n");
            assert(out@ =~= start + node_text(*kind, nv, sv));
        },
        _ => {
            write_let(out, &names[0], value_type_str(kind), kind, s);
            assert(nv[0] == names@[0]@);
            assert(out@ =~= start + node_text(*kind, nv, sv));
        },
    }
    assert(out@ =~= start + node_text(*kind, nv, sv));
}

// ---------------------------------------------------------------------------
// Whole shader
// ---------------------------------------------------------------------------

/// Naming state: the last variable number used and the port variables so far.
pub struct GenState {
    pub counter: nat,
    pub vars: Seq<PortVar>,
}

/// The sources of the inputs of node `n`, in port order.
pub open spec fn node_sources(g: NodeGraph, n: Node, vars: Seq<PortVar>) -> Seq<Seq<char>> {
    Seq::new(n.inputs@.len(), |j: int| source_text(g, vars, n.id, n.inputs@[j].id))
}

/// The variable names given to the outputs of node `n`.
pub open spec fn node_names(n: Node, counter: nat) -> Seq<Seq<char>> {
    Seq::new(n.outputs@.len(), |o: int| var_name((counter + 1 + o) as nat))
}

/// The port variables recorded for the outputs of node `n`.
pub open spec fn node_vars(n: Node, counter: nat) -> Seq<PortVar> {
    Seq::new(
        n.outputs@.len(),
        |o: int| PortVar { node: n.id.0, port: n.outputs@[o].id.0, num: (counter + 1 + o) as u128 },
    )
}

/// The code of the nodes at positions `ord[0..k]`, and the naming state after them.
pub open spec fn body_upto(g: NodeGraph, ord: Seq<int>, k: nat) -> (Seq<char>, GenState)
    decreases k,
{
    if k == 0 {
        (seq![], GenState { counter: 0, vars: seq![] })
    } else {
        let (code, st) = body_upto(g, ord, (k - 1) as nat);
        let n = g.nodes@[ord[k - 1]];
        (
            code + node_text(n.kind, node_names(n, st.counter), node_sources(g, n, st.vars)),
            GenState {
                counter: st.counter + n.outputs@.len(),
                vars: st.vars + node_vars(n, st.counter),
            },
        )
    }
}

/// Some node samples the texture.
pub open spec fn uses_texture(g: NodeGraph) -> bool {
    exists|i: int|
        0 <= i < g.nodes@.len() && ((#[trigger] g.nodes@[i]).kind is TextureSample
            || g.nodes@[i].kind is TextureSampleLod || g.nodes@[i].kind is TextureSize)
}

/// The complete WGSL text for a graph.
pub open spec fn generated_wgsl(g: NodeGraph) -> Seq<char> {
    UNIFORMS_DECL@ + UNIFORMS_BINDING@ + PARAMS_BINDING@ + VERTEX_STAGE@ + (if uses_texture(g) {
        TEXTURE_BINDINGS@
    } else {
        seq![]
    }) + FRAGMENT_START@ + body_upto(g, eval_order(g), eval_order(g).len()).0 + FRAGMENT_END@
}

/// Records a fresh variable for an output port and returns its name.
pub fn add_port_var(port_vars: &mut Vec<PortVar>, var_counter: &mut u128, nid: NodeId, pid: PortId) -> (r:
    Vec<char>)
    requires
        *old(var_counter) < u128::MAX,
    ensures
        *final(var_counter) == *old(var_counter) + 1,
        final(port_vars)@ == old(port_vars)@.push(
            PortVar { node: nid.0, port: pid.0, num: *final(var_counter) },
        ),
        r@ == var_name(*final(var_counter) as nat),
{
    *var_counter = *var_counter + 1;
    port_vars.push(PortVar { node: nid.0, port: pid.0, num: *var_counter });
    let mut name: Vec<char> = Vec::new();
    name.push('v');
    push_nat(&mut name, *var_counter);
    assert(name@ =~= var_name(*var_counter as nat));
    name
}

/// The WGSL text for a graph.
pub fn generate_wgsl(g: &NodeGraph) -> (r: String)
    requires
        g.wf(),
    ensures
        r@ == generated_wgsl(*g),
{
    let mut code: Vec<char> = Vec::new();
    push_str(&mut code, UNIFORMS_DECL);
    push_str(&mut code, UNIFORMS_BINDING);
    push_str(&mut code, PARAMS_BINDING);
    push_str(&mut code, VERTEX_STAGE);
    let mut uses_tex = false;
    let mut i: usize = 0;
    while i < g.nodes.len() && !uses_tex
        invariant
            i <= g.nodes@.len(),
            uses_tex <==> exists|j: int|
                0 <= j < i && ((#[trigger] g.nodes@[j]).kind is TextureSample
                    || g.nodes@[j].kind is TextureSampleLod || g.nodes@[j].kind is TextureSize),
        decreases g.nodes@.len() - i,
    {
        if matches!(g.nodes[i].kind, NodeKind::TextureSample | NodeKind::TextureSampleLod | NodeKind::TextureSize) {
            uses_tex = true;
        }
        i = i + 1;
    }
    if uses_tex {
        push_str(&mut code, TEXTURE_BINDINGS);
    }
    let ghost head = code@;
    assert(head =~= UNIFORMS_DECL@ + UNIFORMS_BINDING@ + PARAMS_BINDING@ + VERTEX_STAGE@ + (if uses_texture(*g) {
        TEXTURE_BINDINGS@
    } else {
        seq![]
    }));
    let order = evaluation_order(g);
    let ghost ord = eval_order(*g);
    push_str(&mut code, FRAGMENT_START);
    let ghost head2 = code@;
    let mut port_vars: Vec<PortVar> = Vec::new();
    let mut var_counter: u128 = 0;
    let mut p: usize = 0;
    while p < order.len()
        invariant
            g.wf(),
            p <= order@.len(),
            order@.len() == ord.len(),
            forall|i: int| 0 <= i < order@.len() ==> #[trigger] order@[i] as int == ord[i],
            forall|i: int| 0 <= i < order@.len() ==> #[trigger] order@[i] < g.nodes@.len(),
            code@ == head2 + body_upto(*g, ord, p as nat).0,
            var_counter as nat == body_upto(*g, ord, p as nat).1.counter,
            port_vars@ == body_upto(*g, ord, p as nat).1.vars,
            var_counter <= 2 * p,
        decreases order@.len() - p,
    {
        let idx = order[p];
        let node = &g.nodes[idx];
        proof {
            assert(node_wf(g.nodes@[idx as int]));
        }
        let ghost st = body_upto(*g, ord, p as nat).1;
        let mut srcs: Vec<Vec<char>> = Vec::new();
        let mut j: usize = 0;
        while j < node.inputs.len()
            invariant
                j <= node.inputs@.len(),
                srcs@.len() == j,
                forall|jj: int|
                    0 <= jj < j ==> (#[trigger] srcs@[jj])@ == source_text(
                        *g,
                        port_vars@,
                        node.id,
                        node.inputs@[jj].id,
                    ),
            decreases node.inputs@.len() - j,
        {
            srcs.push(find_source_text(g, node.id, node.inputs[j].id, &port_vars));
            j = j + 1;
        }
        assert(views(srcs@) =~= node_sources(*g, *node, st.vars));
        let mut names: Vec<Vec<char>> = Vec::new();
        let ghost c0 = var_counter as nat;
        let ghost v0 = port_vars@;
        let mut o: usize = 0;
        while o < node.outputs.len()
            invariant
                o <= node.outputs@.len(),
                node.outputs@.len() <= 2,
                var_counter as nat == c0 + o,
                c0 <= 2 * p,
                names@.len() == o,
                forall|oo: int| 0 <= oo < o ==> (#[trigger] names@[oo])@ == var_name((c0 + 1 + oo) as nat),
                port_vars@ == v0 + node_vars(*node, c0).subrange(0, o as int),
            decreases node.outputs@.len() - o,
        {
            let name = add_port_var(&mut port_vars, &mut var_counter, node.id, node.outputs[o].id);
            names.push(name);
            o = o + 1;
            assert(port_vars@ =~= v0 + node_vars(*node, c0).subrange(0, o as int));
        }
        assert(views(names@) =~= node_names(*node, c0));
        assert(node_vars(*node, c0).subrange(0, o as int) =~= node_vars(*node, c0));
        write_node(&mut code, &node.kind, &names, &srcs);
        p = p + 1;
        assert(code@ =~= head2 + body_upto(*g, ord, p as nat).0);
    }
    push_str(&mut code, FRAGMENT_END);
    assert(code@ =~= generated_wgsl(*g));
    string_of(code.as_slice())
}

} // verus!
