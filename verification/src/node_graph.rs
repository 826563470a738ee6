//! Visual node graphs: nodes with typed ports, joined by connections from an
//! output port to an input port.
use vstd::prelude::*;
use crate::decimal::Decimal;

verus! {

#[derive(Clone, Copy, Debug, PartialEq, Eq, Structural)]
pub struct NodeId(pub u64);

#[derive(Clone, Copy, Debug, PartialEq, Eq, Structural)]
pub struct PortId(pub u64);

#[derive(Clone, Copy, Debug, PartialEq, Eq, Structural)]
pub enum PortKind {
    Input,
    Output,
}

#[derive(Clone, Debug)]
pub struct Port {
    pub id: PortId,
    pub name: String,
    pub kind: PortKind,
}

/// What a node computes. Constants hold exact decimals; `Param(i)` reads
/// component `i % 4` of the packed parameter vector `i / 4`.
#[derive(Clone, Copy, Debug)]
pub enum NodeKind {
    ConstantFloat(Decimal),
    ConstantVec2([Decimal; 2]),
    ConstantVec3([Decimal; 3]),
    ConstantVec4([Decimal; 4]),
    Time,
    UV,
    Param(u32),
    Add,
    Subtract,
    Multiply,
    Divide,
    Min,
    Max,
    Pow,
    Distance,
    Sine,
    Cosine,
    Tangent,
    Length,
    Fract,
    Floor,
    Ceil,
    Abs,
    Sqrt,
    Normalize,
    Dot,
    Cross,
    Mix,
    Step,
    Smoothstep,
    Clamp,
    TextureSample,
    Resolution,
    Mouse,
    Reflect,
    Refract,
    Sign,
    RGB,
    HSV,
    ColorMix,
    ColorAdjust,
    Noise2D,
    Noise3D,
    Voronoi,
    TextureSampleLod,
    TextureSize,
    OutputColor,
}

/// Where a node is drawn in the editor.
#[derive(Clone, Copy, Debug)]
pub struct Position {
    pub x: Decimal,
    pub y: Decimal,
}

#[derive(Clone, Debug)]
pub struct Node {
    pub id: NodeId,
    pub kind: NodeKind,
    pub title: String,
    pub position: Position,
    pub inputs: Vec<Port>,
    pub outputs: Vec<Port>,
}

#[derive(Clone, Copy, Debug)]
pub struct Connection {
    pub from_node: NodeId,
    pub from_port: PortId,
    pub to_node: NodeId,
    pub to_port: PortId,
}

/// A node graph. Nodes are kept in insertion order; `next_id` is the next
/// identifier that `add_node` hands out.
#[derive(Clone, Debug)]
pub struct NodeGraph {
    pub nodes: Vec<Node>,
    pub connections: Vec<Connection>,
    pub next_id: u64,
}

/// The names of the input ports of a node of this kind, in port order.
pub open spec fn input_names(kind: NodeKind) -> Seq<Seq<char>> {
    match kind {
        NodeKind::ConstantFloat(_) | NodeKind::ConstantVec2(_) | NodeKind::ConstantVec3(_)
        | NodeKind::ConstantVec4(_) | NodeKind::Time | NodeKind::UV | NodeKind::Param(_)
        | NodeKind::Resolution | NodeKind::Mouse => seq![],
        NodeKind::Add | NodeKind::Subtract | NodeKind::Multiply | NodeKind::Divide | NodeKind::Min
        | NodeKind::Max | NodeKind::Pow | NodeKind::Distance | NodeKind::Dot | NodeKind::Cross => seq![
            "A"@,
            "B"@,
        ],
        NodeKind::Sine | NodeKind::Cosine | NodeKind::Tangent | NodeKind::Length | NodeKind::Fract
        | NodeKind::Floor | NodeKind::Ceil | NodeKind::Abs | NodeKind::Sqrt | NodeKind::Sign => seq![
            "X"@,
        ],
        NodeKind::Normalize => seq!["Vector"@],
        NodeKind::Noise2D | NodeKind::Noise3D | NodeKind::Voronoi => seq!["Position"@],
        NodeKind::Mix => seq!["A"@, "B"@, "T"@],
        NodeKind::Step => seq!["Edge"@, "X"@],
        NodeKind::Smoothstep => seq!["Edge0"@, "Edge1"@, "X"@],
        NodeKind::Clamp => seq!["X"@, "Min"@, "Max"@],
        NodeKind::TextureSample => seq!["Texture"@, "UV"@],
        NodeKind::TextureSampleLod => seq!["Texture"@, "UV"@, "LOD"@],
        NodeKind::TextureSize => seq!["Texture"@],
        NodeKind::Reflect => seq!["I"@, "N"@],
        NodeKind::Refract => seq!["I"@, "N"@, "Eta"@],
        NodeKind::RGB => seq!["R"@, "G"@, "B"@],
        NodeKind::HSV => seq!["H"@, "S"@, "V"@],
        NodeKind::ColorMix => seq!["Color1"@, "Color2"@, "T"@],
        NodeKind::ColorAdjust => seq!["Color"@, "Brightness"@, "Contrast"@, "Saturation"@],
        NodeKind::OutputColor => seq!["Color"@],
    }
}

/// The names of the output ports of a node of this kind, in port order.
pub open spec fn output_names(kind: NodeKind) -> Seq<Seq<char>> {
    match kind {
        NodeKind::OutputColor => seq![],
        NodeKind::Voronoi => seq!["Distance"@, "Cell"@],
        _ => seq!["Out"@],
    }
}

/// The input port names of a node of this kind.
pub fn input_name_list(kind: &NodeKind) -> (r: Vec<&'static str>)
    ensures
        r@.len() == input_names(*kind).len(),
        forall|i: int| 0 <= i < r@.len() ==> #[trigger] r@[i]@ == input_names(*kind)[i],
{
    let mut r: Vec<&'static str> = Vec::new();
    match kind {
        NodeKind::ConstantFloat(_) | NodeKind::ConstantVec2(_) | NodeKind::ConstantVec3(_)
        | NodeKind::ConstantVec4(_) | NodeKind::Time | NodeKind::UV | NodeKind::Param(_)
        | NodeKind::Resolution | NodeKind::Mouse => {},
        NodeKind::Add | NodeKind::Subtract | NodeKind::Multiply | NodeKind::Divide | NodeKind::Min
        | NodeKind::Max | NodeKind::Pow | NodeKind::Distance | NodeKind::Dot | NodeKind::Cross => {
            r.push("A");
            r.push("B");
        },
        NodeKind::Sine | NodeKind::Cosine | NodeKind::Tangent | NodeKind::Length | NodeKind::Fract
        | NodeKind::Floor | NodeKind::Ceil | NodeKind::Abs | NodeKind::Sqrt | NodeKind::Sign => {
            r.push("X");
        },
        NodeKind::Normalize => {
            r.push("Vector");
        },
        NodeKind::Noise2D | NodeKind::Noise3D | NodeKind::Voronoi => {
            r.push("Position");
        },
        NodeKind::Mix => {
            r.push("A");
            r.push("B");
            r.push("T");
        },
        NodeKind::Step => {
            r.push("Edge");
            r.push("X");
        },
        NodeKind::Smoothstep => {
            r.push("Edge0");
            r.push("Edge1");
            r.push("X");
        },
        NodeKind::Clamp => {
            r.push("X");
            r.push("Min");
            r.push("Max");
        },
        NodeKind::TextureSample => {
            r.push("Texture");
            r.push("UV");
        },
        NodeKind::TextureSampleLod => {
            r.push("Texture");
            r.push("UV");
            r.push("LOD");
        },
        NodeKind::TextureSize => {
            r.push("Texture");
        },
        NodeKind::Reflect => {
            r.push("I");
            r.push("N");
        },
        NodeKind::Refract => {
            r.push("I");
            r.push("N");
            r.push("Eta");
        },
        NodeKind::RGB => {
            r.push("R");
            r.push("G");
            r.push("B");
        },
        NodeKind::HSV => {
            r.push("H");
            r.push("S");
            r.push("V");
        },
        NodeKind::ColorMix => {
            r.push("Color1");
            r.push("Color2");
            r.push("T");
        },
        NodeKind::ColorAdjust => {
            r.push("Color");
            r.push("Brightness");
            r.push("Contrast");
            r.push("Saturation");
        },
        NodeKind::OutputColor => {
            r.push("Color");
        },
    }
    r
}

/// The output port names of a node of this kind.
pub fn output_name_list(kind: &NodeKind) -> (r: Vec<&'static str>)
    ensures
        r@.len() == output_names(*kind).len(),
        forall|i: int| 0 <= i < r@.len() ==> #[trigger] r@[i]@ == output_names(*kind)[i],
{
    let mut r: Vec<&'static str> = Vec::new();
    match kind {
        NodeKind::OutputColor => {},
        NodeKind::Voronoi => {
            r.push("Distance");
            r.push("Cell");
        },
        _ => {
            r.push("Out");
        },
    }
    r
}

/// Ports `names` with consecutive identifiers starting at `first`.
pub open spec fn ports_match(
    ports: Seq<Port>,
    names: Seq<Seq<char>>,
    first: u64,
    kind: PortKind,
) -> bool {
    &&& ports.len() == names.len()
    &&& forall|i: int|
        0 <= i < ports.len() ==> {
            &&& (#[trigger] ports[i]).id.0 == first + i
            &&& ports[i].name@ == names[i]
            &&& ports[i].kind == kind
        }
}

fn make_ports(names: &Vec<&'static str>, first: u64, kind: PortKind) -> (r: Vec<Port>)
    requires
        first + names@.len() <= u64::MAX,
    ensures
        ports_match(r@, names@.map_values(|s: &'static str| s@), first, kind),
{
    let mut r: Vec<Port> = Vec::new();
    let mut i: usize = 0;
    while i < names.len()
        invariant
            i <= names@.len(),
            first + names@.len() <= u64::MAX,
            r@.len() == i,
            forall|j: int|
                0 <= j < i ==> {
                    &&& (#[trigger] r@[j]).id.0 == first + j
                    &&& r@[j].name@ == names@[j]@
                    &&& r@[j].kind == kind
                },
        decreases names@.len() - i,
    {
        let name: &str = names[i];
        r.push(Port { id: PortId(first + i as u64), name: name.to_owned(), kind });
        i = i + 1;
    }
    r
}

/// The decimals a node kind holds are within range.
pub open spec fn kind_wf(kind: NodeKind) -> bool {
    match kind {
        NodeKind::ConstantFloat(d) => d.wf(),
        NodeKind::ConstantVec2(v) => v[0].wf() && v[1].wf(),
        NodeKind::ConstantVec3(v) => v[0].wf() && v[1].wf() && v[2].wf(),
        NodeKind::ConstantVec4(v) => v[0].wf() && v[1].wf() && v[2].wf() && v[3].wf(),
        _ => true,
    }
}

/// A node carries the ports of its kind and in-range constants.
pub open spec fn node_wf(n: Node) -> bool {
    &&& kind_wf(n.kind)
    &&& n.inputs@.len() == input_names(n.kind).len()
    &&& n.outputs@.len() == output_names(n.kind).len()
}

impl NodeGraph {
    /// Node identifiers are distinct and below `next_id`; every node carries
    /// the ports of its kind.
    pub open spec fn wf(&self) -> bool {
        &&& forall|i: int| 0 <= i < self.nodes@.len() ==> node_wf(#[trigger] self.nodes@[i])
        &&& forall|i: int, j: int|
            0 <= i < j < self.nodes@.len() ==> (#[trigger] self.nodes@[i]).id != (#[trigger] self.nodes@[j]).id
        &&& forall|i: int| 0 <= i < self.nodes@.len() ==> (#[trigger] self.nodes@[i]).id.0 < self.next_id
    }

    /// The node with this identifier is at `index`.
    pub open spec fn has_node_at(&self, id: NodeId, index: int) -> bool {
        0 <= index < self.nodes@.len() && self.nodes@[index].id == id
    }

    /// Some node has this identifier.
    pub open spec fn has_node(&self, id: NodeId) -> bool {
        exists|i: int| self.has_node_at(id, i)
    }

    /// An empty graph.
    pub fn new() -> (g: NodeGraph)
        ensures
            g.wf(),
            g.nodes@.len() == 0,
            g.connections@.len() == 0,
            g.next_id == 1,
    {
        NodeGraph { nodes: Vec::new(), connections: Vec::new(), next_id: 1 }
    }

    /// Adds a node of `kind` with its ports and returns its identifier.
    pub fn add_node(&mut self, kind: NodeKind, title: &str, position: Position) -> (id:
        NodeId)
        requires
            old(self).wf(),
            kind_wf(kind),
            old(self).next_id <= u64::MAX - 8,
        ensures
            final(self).wf(),
            id.0 == old(self).next_id,
            !old(self).has_node(id),
            final(self).connections@ == old(self).connections@,
            final(self).nodes@.len() == old(self).nodes@.len() + 1,
            forall|i: int|
                0 <= i < old(self).nodes@.len() ==> #[trigger] final(self).nodes@[i] == old(
                    self,
                ).nodes@[i],
            ({
                let n = final(self).nodes@.last();
                &&& n.id == id
                &&& n.title@ == title@
                &&& n.position == position
                &&& ports_match(n.inputs@, input_names(kind), (id.0 + 1) as u64, PortKind::Input)
                &&& ports_match(
                    n.outputs@,
                    output_names(kind),
                    (id.0 + 1 + input_names(kind).len()) as u64,
                    PortKind::Output,
                )
            }),
            final(self).nodes@.last().kind == kind,
            final(self).next_id == old(self).next_id + 1 + input_names(kind).len()
                + output_names(kind).len(),
    {
        let id = NodeId(self.next_id);
        let in_names = input_name_list(&kind);
        let out_names = output_name_list(&kind);
        proof {
            assert(in_names@.map_values(|s: &'static str| s@) =~= input_names(kind));
            assert(out_names@.map_values(|s: &'static str| s@) =~= output_names(kind));
        }
        let first_in = self.next_id + 1;
        let inputs = make_ports(&in_names, first_in, PortKind::Input);
        let first_out = first_in + in_names.len() as u64;
        let outputs = make_ports(&out_names, first_out, PortKind::Output);
        let node = Node { id, kind, title: title.to_owned(), position, inputs, outputs };
        proof {
            assert forall|i: int| self.has_node_at(id, i) implies false by {
                assert(self.nodes@[i].id.0 < self.next_id);
            }
        }
        self.nodes.push(node);
        self.next_id = first_out + out_names.len() as u64;
        id
    }

    /// Connects output port `from_port` of `from_node` to input port `to_port` of `to_node`.
    pub fn connect(&mut self, from_node: NodeId, from_port: PortId, to_node: NodeId, to_port: PortId)
        ensures
            final(self).nodes@ == old(self).nodes@,
            final(self).next_id == old(self).next_id,
            final(self).connections@ == old(self).connections@.push(
                Connection { from_node, from_port, to_node, to_port },
            ),
    {
        self.connections.push(Connection { from_node, from_port, to_node, to_port });
    }

    /// The position of the node with identifier `id`.
    pub fn index_of(&self, id: NodeId) -> (r: Option<usize>)
        ensures
            r matches Some(i) ==> self.has_node_at(id, i as int),
            r is None ==> !self.has_node(id),
    {
        let mut i: usize = 0;
        while i < self.nodes.len()
            invariant
                i <= self.nodes@.len(),
                forall|j: int| 0 <= j < i ==> self.nodes@[j].id != id,
            decreases self.nodes@.len() - i,
        {
            if self.nodes[i].id.0 == id.0 {
                return Some(i);
            }
            i = i + 1;
        }
        None
    }

    /// The identifier of input port `index` of node `node`.
    pub fn input_port(&self, node: NodeId, index: usize) -> (r: Option<PortId>)
        requires
            self.wf(),
        ensures
            r matches Some(p) ==> exists|i: int|
                self.has_node_at(node, i) && index < self.nodes@[i].inputs@.len()
                    && self.nodes@[i].inputs@[index as int].id == p,
            r is None ==> forall|i: int|
                self.has_node_at(node, i) ==> index >= self.nodes@[i].inputs@.len(),
    {
        match self.index_of(node) {
            Some(i) => {
                if index < self.nodes[i].inputs.len() {
                    Some(self.nodes[i].inputs[index].id)
                } else {
                    proof {
                        assert forall|k: int| self.has_node_at(node, k) implies index
                            >= self.nodes@[k].inputs@.len() by {
                            self.lemma_unique_index(node, i as int, k);
                        }
                    }
                    None
                }
            },
            None => None,
        }
    }

    /// The identifier of output port `index` of node `node`.
    pub fn output_port(&self, node: NodeId, index: usize) -> (r: Option<PortId>)
        requires
            self.wf(),
        ensures
            r matches Some(p) ==> exists|i: int|
                self.has_node_at(node, i) && index < self.nodes@[i].outputs@.len()
                    && self.nodes@[i].outputs@[index as int].id == p,
            r is None ==> forall|i: int|
                self.has_node_at(node, i) ==> index >= self.nodes@[i].outputs@.len(),
    {
        match self.index_of(node) {
            Some(i) => {
                if index < self.nodes[i].outputs.len() {
                    Some(self.nodes[i].outputs[index].id)
                } else {
                    proof {
                        assert forall|k: int| self.has_node_at(node, k) implies index
                            >= self.nodes@[k].outputs@.len() by {
                            self.lemma_unique_index(node, i as int, k);
                        }
                    }
                    None
                }
            },
            None => None,
        }
    }

    /// In a well-formed graph at most one node has a given identifier.
    pub proof fn lemma_unique_index(&self, id: NodeId, i: int, k: int)
        requires
            self.wf(),
            self.has_node_at(id, i),
            self.has_node_at(id, k),
        ensures
            i == k,
    {
        if i < k {
            assert(self.nodes@[i].id != self.nodes@[k].id);
        } else if k < i {
            assert(self.nodes@[k].id != self.nodes@[i].id);
        }
    }
}

} // verus!
