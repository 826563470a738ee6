//! Reading a node graph back from the fragment shader that the node-graph
//! compiler writes.
//!
//! The reader walks the lines of the text. Lines before the header of
//! `fs_main` are skipped; inside its body every definition
//! `let <name>: <type> = <expr>;` becomes a node whose inputs are fed by the
//! variables its expression names, and every `return <name>;` of a defined
//! variable becomes an output node. The body ends at a line that is `}`.
use vstd::prelude::*;
use crate::decimal::Decimal;
use crate::node_graph::{
    input_names, kind_wf, output_names, Connection, Node, NodeGraph, NodeKind, Position,
};
use crate::text::{
    lemma_find, split_lines, chars_of, eq_str, lines, lines_exec, push_chars, push_str, starts_with, starts_with_str,
    string_of, trim, trim_exec,
};
use crate::wgsl_reader::{
    definition_parts, definition_parts_exec, lookup_name, lookup_name_exec, names_view,
    parse_expr, parse_expr_exec, return_target, return_target_exec, sources_view,
};

verus! {

/// The message of the error reported when the text has no fragment entry point.
pub const NO_ENTRY_MESSAGE: &'static str = "No fragment entry point found";

/// The start of the message for a definition whose expression is not understood.
pub const UNSUPPORTED_PREFIX: &'static str = "Unsupported expression: ";

/// The start of the header line of the fragment entry point.
pub const ENTRY_PREFIX: &'static str = "fn fs_main(";

/// A bound on the length of the text the reader accepts, so that node
/// identifiers stay within `u64`. No character vector can be this long: it
/// would take `2^63` bytes.
pub open spec fn max_text_len() -> int {
    0x2000_0000_0000_0000
}

/// A problem found while reading; `line` is 1-based where the problem has a line.
#[derive(Clone, Debug)]
pub struct ParseError {
    pub line: Option<usize>,
    pub message: String,
}

pub open spec fn parse_error_view(e: ParseError) -> (Option<int>, Seq<char>) {
    (
        match e.line {
            Some(l) => Some(l as int),
            None => None,
        },
        e.message@,
    )
}

pub open spec fn parse_errors_view(es: Seq<ParseError>) -> Seq<(Option<int>, Seq<char>)> {
    es.map_values(|e: ParseError| parse_error_view(e))
}

/// Where the reader stands: before the entry point, in its body, or past it.
#[derive(Clone, Copy, Debug, PartialEq, Eq, Structural)]
pub enum Phase {
    Before,
    Body,
    After,
}

/// A node read from the text: its kind, the variable it defines (none for
/// an output node) and, for each input, the index of the node that feeds it.
pub struct ReadNode {
    pub kind: NodeKind,
    pub name: Option<Seq<char>>,
    pub sources: Seq<Option<int>>,
}

/// What has been read so far.
pub struct ReadState {
    pub phase: Phase,
    pub nodes: Seq<ReadNode>,
    pub errors: Seq<(Option<int>, Seq<char>)>,
}

pub open spec fn read_names(nodes: Seq<ReadNode>) -> Seq<Option<Seq<char>>> {
    nodes.map_values(|n: ReadNode| n.name)
}

/// The effect of a trimmed line `t` (line number `no`) of the entry point's body.
pub open spec fn read_body_line(st: ReadState, no: int, t: Seq<char>) -> ReadState {
    match definition_parts(t) {
        Some((name, ty, e)) => match parse_expr(ty, e, read_names(st.nodes)) {
            Some((k, srcs)) => ReadState {
                phase: st.phase,
                nodes: st.nodes.push(ReadNode { kind: k, name: Some(name), sources: srcs }),
                errors: st.errors,
            },
            None => ReadState {
                phase: st.phase,
                nodes: st.nodes,
                errors: st.errors.push((Some(no), UNSUPPORTED_PREFIX@ + e)),
            },
        },
        None => match return_target(t) {
            Some(x) => match lookup_name(read_names(st.nodes), x) {
                Some(j) => ReadState {
                    phase: st.phase,
                    nodes: st.nodes.push(
                        ReadNode { kind: NodeKind::OutputColor, name: None, sources: seq![Some(j)] },
                    ),
                    errors: st.errors,
                },
                None => st,
            },
            None => st,
        },
    }
}

/// The effect of line `raw` (line number `no`).
pub open spec fn read_line(st: ReadState, no: int, raw: Seq<char>) -> ReadState {
    let t = trim(raw);
    match st.phase {
        Phase::Before => if starts_with(t, ENTRY_PREFIX@) {
            ReadState { phase: Phase::Body, nodes: st.nodes, errors: st.errors }
        } else {
            st
        },
        Phase::Body => if t == "}"@ {
            ReadState { phase: Phase::After, nodes: st.nodes, errors: st.errors }
        } else {
            read_body_line(st, no, t)
        },
        Phase::After => st,
    }
}

/// The state after the first `k` lines.
pub open spec fn read_upto(ls: Seq<Seq<char>>, k: nat) -> ReadState
    decreases k,
{
    if k == 0 {
        ReadState { phase: Phase::Before, nodes: seq![], errors: seq![] }
    } else {
        read_line(read_upto(ls, (k - 1) as nat), k as int, ls[k - 1])
    }
}

/// The nodes read from `text`, or the errors found in it.
pub open spec fn parse_outcome(text: Seq<char>) -> Result<Seq<ReadNode>, Seq<(Option<int>, Seq<char>)>> {
    let st = read_upto(lines(text), lines(text).len());
    if st.phase == Phase::Before {
        Err(seq![(None, NO_ENTRY_MESSAGE@)])
    } else if st.errors.len() > 0 {
        Err(st.errors)
    } else {
        Ok(st.nodes)
    }
}

/// The title of a node built from a read node.
pub open spec fn node_title(n: ReadNode) -> Seq<char> {
    match n.name {
        Some(x) => x,
        None => "Output"@,
    }
}

/// The connection that feeds input `k` of node `i` from `src`, when both ports exist.
pub open spec fn source_link(nodes: Seq<Node>, i: int, k: int, src: Option<int>) -> Seq<Connection> {
    match src {
        Some(j) => if 0 <= j < i && k < nodes[i].inputs@.len() && nodes[j].outputs@.len() > 0 {
            seq![
                Connection {
                    from_node: nodes[j].id,
                    from_port: nodes[j].outputs@[0].id,
                    to_node: nodes[i].id,
                    to_port: nodes[i].inputs@[k].id,
                },
            ]
        } else {
            seq![]
        },
        None => seq![],
    }
}

/// The connections into node `i` from its first `k` sources.
pub open spec fn node_links(nodes: Seq<Node>, items: Seq<ReadNode>, i: int, k: nat) -> Seq<Connection>
    decreases k,
{
    if k == 0 {
        seq![]
    } else {
        node_links(nodes, items, i, (k - 1) as nat) + source_link(
            nodes,
            i,
            k - 1,
            items[i].sources[k - 1],
        )
    }
}

/// The connections into the first `i` nodes.
pub open spec fn links_upto(nodes: Seq<Node>, items: Seq<ReadNode>, i: nat) -> Seq<Connection>
    decreases i,
{
    if i == 0 {
        seq![]
    } else {
        links_upto(nodes, items, (i - 1) as nat) + node_links(
            nodes,
            items,
            i - 1,
            items[i - 1].sources.len(),
        )
    }
}

/// `g` is the graph built from `items`: one node per item, in order, with its
/// kind and title, and the connections that the items' sources describe.
pub open spec fn graph_of(g: NodeGraph, items: Seq<ReadNode>) -> bool {
    &&& g.wf()
    &&& g.nodes@.len() == items.len()
    &&& forall|i: int|
        0 <= i < items.len() ==> (#[trigger] g.nodes@[i]).kind == items[i].kind
            && g.nodes@[i].title@ == node_title(items[i])
    &&& g.connections@ == links_upto(g.nodes@, items, items.len())
}


/// A node of any kind has at most five ports.
proof fn lemma_port_count(kind: NodeKind)
    ensures
        input_names(kind).len() + output_names(kind).len() <= 5,
{
    match kind {
        NodeKind::Voronoi => {},
        NodeKind::OutputColor => {},
        _ => {},
    }
}

/// The connections into the first `i` nodes depend only on those nodes.
proof fn lemma_links_frame(a: Seq<Node>, b: Seq<Node>, items: Seq<ReadNode>, i: nat)
    requires
        i <= a.len(),
        i <= b.len(),
        forall|m: int| 0 <= m < i ==> a[m] == b[m],
    ensures
        links_upto(a, items, i) == links_upto(b, items, i),
    decreases i,
{
    if i > 0 {
        lemma_links_frame(a, b, items, (i - 1) as nat);
        lemma_node_links_frame(a, b, items, i - 1, items[i - 1].sources.len());
    }
}

proof fn lemma_node_links_frame(a: Seq<Node>, b: Seq<Node>, items: Seq<ReadNode>, i: int, k: nat)
    requires
        0 <= i < a.len(),
        i < b.len(),
        forall|m: int| 0 <= m <= i ==> a[m] == b[m],
    ensures
        node_links(a, items, i, k) == node_links(b, items, i, k),
    decreases k,
{
    if k > 0 {
        lemma_node_links_frame(a, b, items, i, (k - 1) as nat);
        let src = items[i].sources[k - 1];
        if let Some(j) = src {
            if 0 <= j < i {
                assert(a[j] == b[j]);
            }
        }
        assert(source_link(a, i, k - 1, src) == source_link(b, i, k - 1, src));
    }
}

/// The read node for item `i` of the reader's parallel vectors.
pub open spec fn item_view(
    kinds: Seq<NodeKind>,
    names: Seq<Option<Vec<char>>>,
    srcs: Seq<Vec<Option<usize>>>,
    i: int,
) -> ReadNode {
    ReadNode {
        kind: kinds[i],
        name: names_view(names)[i],
        sources: sources_view(srcs[i]@),
    }
}

pub open spec fn items_view(
    kinds: Seq<NodeKind>,
    names: Seq<Option<Vec<char>>>,
    srcs: Seq<Vec<Option<usize>>>,
) -> Seq<ReadNode> {
    Seq::new(kinds.len(), |i: int| item_view(kinds, names, srcs, i))
}

/// Builds the graph that the read nodes describe.
fn build_graph(
    kinds: &Vec<NodeKind>,
    names: &Vec<Option<Vec<char>>>,
    srcs: &Vec<Vec<Option<usize>>>,
) -> (g: NodeGraph)
    requires
        kinds@.len() == names@.len(),
        kinds@.len() == srcs@.len(),
        kinds@.len() <= max_text_len(),
        forall|i: int| 0 <= i < kinds@.len() ==> kind_wf(#[trigger] kinds@[i]),
    ensures
        graph_of(g, items_view(kinds@, names@, srcs@)),
{
    let ghost items = items_view(kinds@, names@, srcs@);
    let mut g = NodeGraph::new();
    let zero = Decimal::from_int(0);
    let origin = Position { x: zero, y: zero };
    let mut i: usize = 0;
    while i < kinds.len()
        invariant
            items == items_view(kinds@, names@, srcs@),
            kinds@.len() == names@.len(),
            kinds@.len() == srcs@.len(),
            kinds@.len() <= max_text_len(),
            forall|m: int| 0 <= m < kinds@.len() ==> kind_wf(#[trigger] kinds@[m]),
            i <= kinds@.len(),
            g.wf(),
            g.nodes@.len() == i,
            g.next_id <= 1 + 6 * i,
            forall|m: int|
                0 <= m < i ==> (#[trigger] g.nodes@[m]).kind == items[m].kind
                    && g.nodes@[m].title@ == node_title(items[m]),
            g.connections@ == links_upto(g.nodes@, items, i as nat),
        decreases kinds@.len() - i,
    {
        let title = match &names[i] {
            Some(n) => string_of(n.as_slice()),
            None => string_of(chars_of("Output").as_slice()),
        };
        proof {
            lemma_port_count(kinds@[i as int]);
            reveal_strlit("Output");
        }
        let ghost before = g.nodes@;
        let id = g.add_node(kinds[i], title.as_str(), origin);
        proof {
            lemma_links_frame(g.nodes@, before, items, i as nat);
        }
        let ghost links0 = g.connections@;
        let ghost nodes1 = g.nodes@;
        let ghost next1 = g.next_id;
        assert(g.nodes@[i as int].kind == items[i as int].kind);
        assert(g.nodes@[i as int].title@ == node_title(items[i as int]));
        let src = &srcs[i];
        let mut k: usize = 0;
        while k < src.len()
            invariant
                items == items_view(kinds@, names@, srcs@),
                kinds@.len() == srcs@.len(),
                i < kinds@.len(),
                src == &srcs@[i as int],
                k <= src@.len(),
                g.wf(),
                g.nodes@.len() == i + 1,
                g.nodes@ == nodes1,
                g.next_id == next1,
                links0 == links_upto(g.nodes@, items, i as nat),
                g.connections@ == links0 + node_links(g.nodes@, items, i as int, k as nat),
            decreases src@.len() - k,
        {
            assert(items[i as int].sources[k as int] == match src@[k as int] {
                Some(j) => Some(j as int),
                None => None::<int>,
            });
            match src[k] {
                Some(j) => {
                    if j < i && k < g.nodes[i].inputs.len() && g.nodes[j].outputs.len() > 0 {
                        let c = Connection {
                            from_node: g.nodes[j].id,
                            from_port: g.nodes[j].outputs[0].id,
                            to_node: g.nodes[i].id,
                            to_port: g.nodes[i].inputs[k].id,
                        };
                        g.connect(c.from_node, c.from_port, c.to_node, c.to_port);
                    }
                },
                None => {},
            }
            k = k + 1;
            assert(g.connections@ =~= links0 + node_links(g.nodes@, items, i as int, k as nat));
        }
        i = i + 1;
        assert(g.connections@ =~= links_upto(g.nodes@, items, i as nat));
    }
    g
}


/// A text has no more lines than characters.
proof fn lemma_line_count(s: Seq<char>)
    ensures
        split_lines(s).len() <= s.len(),
    decreases s.len(),
{
    if s.len() > 0 {
        lemma_find(s, seq!['\n']);
        match crate::text::find(s, seq!['\n']) {
            Some(p) => {
                lemma_line_count(s.subrange(p + 1, s.len() as int));
            },
            None => {},
        }
    }
}

/// The reader's state as the spec describes it.
pub open spec fn state_view(
    phase: Phase,
    kinds: Seq<NodeKind>,
    names: Seq<Option<Vec<char>>>,
    srcs: Seq<Vec<Option<usize>>>,
    errors: Seq<ParseError>,
) -> ReadState {
    ReadState {
        phase,
        nodes: items_view(kinds, names, srcs),
        errors: parse_errors_view(errors),
    }
}

/// Reads a graph from WGSL text; see the module documentation for the rules.
#[derive(Clone, Debug)]
pub struct VisualLanguageParser {}

impl VisualLanguageParser {
    pub fn new() -> (p: Self) {
        VisualLanguageParser {}
    }

    /// Reads the node graph of the fragment entry point `fs_main` of `wgsl_code`.
    ///
    /// Fails with the errors of every definition that is not understood, each
    /// with its line number, or with a single error without a line when the
    /// text has no fragment entry point.
    pub fn parse_wgsl_to_graph(&self, wgsl_code: &str) -> (r: Result<NodeGraph, Vec<ParseError>>)
        requires
            wgsl_code@.len() <= max_text_len(),
        ensures
            match r {
                Ok(g) => parse_outcome(wgsl_code@) matches Ok(items) && graph_of(g, items),
                Err(es) => parse_outcome(wgsl_code@) == Err::<Seq<ReadNode>, _>(
                    parse_errors_view(es@),
                ),
            },
    {
        let text = chars_of(wgsl_code);
        let ls = lines_exec(text.as_slice());
        let ghost lv = lines(text@);
        proof {
            lemma_line_count(text@);
        }
        let mut phase = Phase::Before;
        let mut kinds: Vec<NodeKind> = Vec::new();
        let mut names: Vec<Option<Vec<char>>> = Vec::new();
        let mut srcs: Vec<Vec<Option<usize>>> = Vec::new();
        let mut errors: Vec<ParseError> = Vec::new();
        let mut k: usize = 0;
        proof {
            assert(items_view(kinds@, names@, srcs@) =~= Seq::<ReadNode>::empty());
            assert(parse_errors_view(errors@) =~= Seq::<(Option<int>, Seq<char>)>::empty());
        }
        while k < ls.len()
            invariant
                lv == lines(text@),
                ls@.len() == lv.len(),
                lv.len() <= max_text_len(),
                forall|m: int| 0 <= m < ls@.len() ==> #[trigger] ls@[m]@ == lv[m],
                k <= ls@.len(),
                kinds@.len() == names@.len(),
                kinds@.len() == srcs@.len(),
                kinds@.len() <= k,
                forall|m: int| 0 <= m < kinds@.len() ==> kind_wf(#[trigger] kinds@[m]),
                state_view(phase, kinds@, names@, srcs@, errors@) == read_upto(lv, k as nat),
            decreases ls@.len() - k,
        {
            let ghost st = read_upto(lv, k as nat);
            let t = trim_exec(ls[k].as_slice());
            let ghost old_items = items_view(kinds@, names@, srcs@);
            proof {
                reveal_strlit("}");
                assert(names_view(names@) =~= read_names(st.nodes));
                assert(t@ == trim(lv[k as int]));
                assert(read_upto(lv, (k + 1) as nat) == read_line(st, (k + 1) as int, lv[k as int]));
            }
            match phase {
                Phase::Before => {
                    if starts_with_str(t.as_slice(), ENTRY_PREFIX) {
                        phase = Phase::Body;
                    }
                },
                Phase::Body => {
                    if eq_str(t.as_slice(), "}") {
                        phase = Phase::After;
                    } else {
                        match definition_parts_exec(t.as_slice()) {
                            Some((name, ty, e)) => {
                                match parse_expr_exec(ty.as_slice(), e.as_slice(), &names) {
                                    Some((kind, s)) => {
                                        let ghost nm = name@;
                                        kinds.push(kind);
                                        names.push(Some(name));
                                        srcs.push(s);
                                        assert(items_view(kinds@, names@, srcs@) =~= old_items.push(
                                            ReadNode { kind, name: Some(nm), sources: sources_view(s@) },
                                        ));
                                    },
                                    None => {
                                        let mut msg: Vec<char> = Vec::new();
                                        push_str(&mut msg, UNSUPPORTED_PREFIX);
                                        push_chars(&mut msg, e.as_slice());
                                        errors.push(
                                            ParseError {
                                                line: Some(k + 1),
                                                message: string_of(msg.as_slice()),
                                            },
                                        );
                                    },
                                }
                            },
                            None => {
                                match return_target_exec(t.as_slice()) {
                                    Some(x) => {
                                        match lookup_name_exec(&names, x.as_slice()) {
                                            Some(j) => {
                                                let mut one: Vec<Option<usize>> = Vec::new();
                                                one.push(Some(j));
                                                kinds.push(NodeKind::OutputColor);
                                                names.push(None);
                                                srcs.push(one);
                                                assert(sources_view(one@) =~= seq![Some(j as int)]);
                                                assert(items_view(kinds@, names@, srcs@) =~= old_items.push(
                                                    ReadNode {
                                                        kind: NodeKind::OutputColor,
                                                        name: None,
                                                        sources: seq![Some(j as int)],
                                                    },
                                                ));
                                            },
                                            None => {},
                                        }
                                    },
                                    None => {},
                                }
                            },
                        }
                    }
                },
                Phase::After => {},
            }
            k = k + 1;
            proof {
                assert(items_view(kinds@, names@, srcs@) =~= read_upto(lv, k as nat).nodes);
                assert(parse_errors_view(errors@) =~= read_upto(lv, k as nat).errors);
            }
        }
        if phase == Phase::Before {
            let mut es: Vec<ParseError> = Vec::new();
            es.push(
                ParseError { line: None, message: string_of(chars_of(NO_ENTRY_MESSAGE).as_slice()) },
            );
            proof {
                assert(parse_errors_view(es@) =~= seq![(None::<int>, NO_ENTRY_MESSAGE@)]);
            }
            Err(es)
        } else if errors.len() > 0 {
            Err(errors)
        } else {
            Ok(build_graph(&kinds, &names, &srcs))
        }
    }
}

} // verus!
