//! Visual Language Compiler: turns a node graph into a WGSL shader after
//! checking that every input is connected, that no cycle is reachable, and
//! that the graph has an output node.
use vstd::prelude::*;
use crate::graph_analysis::{has_cycle, has_cycles, input_connected, is_input_connected};
use crate::node_graph::{Node, NodeGraph, NodeId, NodeKind, PortId};
use crate::codegen::{generated_wgsl, generate_wgsl};

verus! {

#[derive(Clone, Copy, Debug, PartialEq, Eq, Structural)]
pub enum ErrorSeverity {
    Error,
    Warning,
    Info,
}

#[derive(Clone, Debug)]
pub struct CompilationError {
    pub node_id: Option<NodeId>,
    pub message: String,
    pub severity: ErrorSeverity,
}

#[derive(Clone, Debug)]
pub struct CompilationWarning {
    pub node_id: Option<NodeId>,
    pub message: String,
}

/// What an error reports: the node it concerns, if any, and its message.
pub open spec fn error_view(e: CompilationError) -> (Option<NodeId>, Seq<char>) {
    (e.node_id, e.message@)
}

pub open spec fn errors_view(es: Seq<CompilationError>) -> Seq<(Option<NodeId>, Seq<char>)> {
    es.map_values(|e: CompilationError| error_view(e))
}

pub const CYCLE_MESSAGE: &'static str = "Graph contains cycles which would cause infinite loops";

pub const NO_OUTPUT_MESSAGE: &'static str = "Graph must contain at least one output node";

/// The message for an input port that nothing feeds.
pub open spec fn missing_input_message(name: Seq<char>) -> Seq<char> {
    "Required input '"@ + name + "' is not connected"@
}

/// Errors for the unconnected inputs among the first `j` inputs of `n`.
pub open spec fn node_missing_inputs(g: NodeGraph, n: Node, j: nat) -> Seq<
    (Option<NodeId>, Seq<char>),
>
    decreases j,
{
    if j == 0 {
        seq![]
    } else {
        node_missing_inputs(g, n, (j - 1) as nat) + if !input_connected(
            g,
            n.id,
            n.inputs@[j - 1].id,
        ) {
            seq![(Some(n.id), missing_input_message(n.inputs@[j - 1].name@))]
        } else {
            seq![]
        }
    }
}

/// Errors for the unconnected inputs of the first `i` nodes, node by node.
pub open spec fn missing_inputs(g: NodeGraph, i: nat) -> Seq<(Option<NodeId>, Seq<char>)>
    decreases i,
{
    if i == 0 {
        seq![]
    } else {
        missing_inputs(g, (i - 1) as nat) + node_missing_inputs(
            g,
            g.nodes@[i - 1],
            g.nodes@[i - 1].inputs@.len(),
        )
    }
}

/// Some node of the graph is an output node.
pub open spec fn has_output(g: NodeGraph) -> bool {
    exists|i: int| 0 <= i < g.nodes@.len() && (#[trigger] g.nodes@[i]).kind is OutputColor
}

/// Every problem that keeps a graph from compiling, in the order they are reported.
pub open spec fn validation_errors(g: NodeGraph) -> Seq<(Option<NodeId>, Seq<char>)> {
    missing_inputs(g, g.nodes@.len()) + (if has_cycle(g) {
        seq![(None::<NodeId>, CYCLE_MESSAGE@)]
    } else {
        seq![]
    }) + (if !has_output(g) {
        seq![(None::<NodeId>, NO_OUTPUT_MESSAGE@)]
    } else {
        seq![]
    })
}

proof fn lemma_errors_view_push(es: Seq<CompilationError>, e: CompilationError)
    ensures
        errors_view(es.push(e)) == errors_view(es).push(error_view(e)),
{
    assert(errors_view(es.push(e)) =~= errors_view(es).push(error_view(e)));
}

fn copy_error(e: &CompilationError) -> (r: CompilationError)
    ensures
        error_view(r) == error_view(*e),
        r.severity == e.severity,
{
    CompilationError { node_id: e.node_id, message: e.message.clone(), severity: e.severity }
}

fn copy_errors(es: &Vec<CompilationError>) -> (r: Vec<CompilationError>)
    ensures
        errors_view(r@) == errors_view(es@),
        forall|i: int| 0 <= i < r@.len() ==> #[trigger] r@[i].severity == es@[i].severity,
{
    let mut r: Vec<CompilationError> = Vec::new();
    let mut i: usize = 0;
    while i < es.len()
        invariant
            i <= es@.len(),
            forall|j: int| 0 <= j < i ==> error_view(#[trigger] r@[j]) == error_view(es@[j]),
            r@.len() == i,
            forall|j: int| 0 <= j < i ==> #[trigger] r@[j].severity == es@[j].severity,
        decreases es@.len() - i,
    {
        r.push(copy_error(&es[i]));
        i = i + 1;
    }
    assert(errors_view(r@) =~= errors_view(es@));
    r
}

#[derive(Clone, Debug)]
pub struct VisualLanguageCompiler {
    validate_connections: bool,
    generate_debug_info: bool,
    optimize_code: bool,
    errors: Vec<CompilationError>,
    warnings: Vec<CompilationWarning>,
}

impl VisualLanguageCompiler {
    /// Validation on, no errors or warnings recorded.
    pub closed spec fn is_fresh(&self) -> bool {
        &&& self.validate_connections
        &&& self.errors@.len() == 0
        &&& self.warnings@.len() == 0
    }

    /// The errors of the last compilation.
    pub closed spec fn spec_errors(&self) -> Seq<CompilationError> {
        self.errors@
    }

    /// No warnings are recorded.
    pub closed spec fn no_warnings(&self) -> bool {
        self.warnings@.len() == 0
    }

    /// Whether graphs are validated before code generation.
    pub closed spec fn validates(&self) -> bool {
        self.validate_connections
    }

    pub fn new() -> (c: Self)
        ensures
            c.is_fresh(),
            c.validates(),
            c.spec_errors().len() == 0,
            c.no_warnings(),
    {
        VisualLanguageCompiler {
            validate_connections: true,
            generate_debug_info: false,
            optimize_code: true,
            errors: Vec::new(),
            warnings: Vec::new(),
        }
    }

    /// The errors recorded by the last compilation.
    pub fn errors(&self) -> (r: Vec<CompilationError>)
        ensures
            errors_view(r@) == errors_view(self.spec_errors()),
    {
        copy_errors(&self.errors)
    }

    /// Compiles a node graph to WGSL. With validation on, a graph that has
    /// validation errors is refused with exactly those errors.
    pub fn compile_to_wgsl(&mut self, node_graph: &NodeGraph) -> (r: Result<
        String,
        Vec<CompilationError>,
    >)
        requires
            node_graph.wf(),
        ensures
            final(self).validates() == old(self).validates(),
            final(self).no_warnings(),
            old(self).validates() && validation_errors(*node_graph).len() > 0 ==> {
                &&& r is Err
                &&& errors_view(r->Err_0@) == validation_errors(*node_graph)
                &&& errors_view(final(self).spec_errors()) == validation_errors(*node_graph)
                &&& forall|i: int|
                    0 <= i < r->Err_0@.len() ==> #[trigger] r->Err_0@[i].severity
                        == ErrorSeverity::Error
            },
            !(old(self).validates() && validation_errors(*node_graph).len() > 0) ==> {
                &&& r is Ok
                &&& r->Ok_0@ == generated_wgsl(*node_graph)
                &&& final(self).spec_errors().len() == 0
            },
    {
        self.errors.clear();
        self.warnings.clear();
        if self.validate_connections {
            match self.validate_node_graph(node_graph) {
                Ok(()) => {},
                Err(es) => {
                    return Err(es);
                },
            }
        }
        let wgsl_code = self.generate_wgsl_from_graph(node_graph);
        if self.errors.len() > 0 {
            Err(copy_errors(&self.errors))
        } else {
            Ok(wgsl_code)
        }
    }

    /// Checks that every input is connected, that no cycle is reachable and
    /// that some node is an output node; appends an error for each failure.
    fn validate_node_graph(&mut self, node_graph: &NodeGraph) -> (r: Result<
        (),
        Vec<CompilationError>,
    >)
        requires
            node_graph.wf(),
            old(self).errors@.len() == 0,
        ensures
            final(self).validates() == old(self).validates(),
            final(self).warnings@ == old(self).warnings@,
            errors_view(final(self).errors@) == validation_errors(*node_graph),
            forall|i: int|
                0 <= i < final(self).errors@.len() ==> #[trigger] final(self).errors@[i].severity
                    == ErrorSeverity::Error,
            r is Ok <==> validation_errors(*node_graph).len() == 0,
            r matches Err(es) ==> errors_view(es@) == validation_errors(*node_graph) && forall|
                i: int,
            | 0 <= i < es@.len() ==> #[trigger] es@[i].severity == ErrorSeverity::Error,
    {
        let mut i: usize = 0;
        while i < node_graph.nodes.len()
            invariant
                i <= node_graph.nodes@.len(),
                node_graph.wf(),
                self.validates() == old(self).validates(),
                self.warnings@ == old(self).warnings@,
                errors_view(self.errors@) == missing_inputs(*node_graph, i as nat),
                forall|k: int|
                    0 <= k < self.errors@.len() ==> #[trigger] self.errors@[k].severity
                        == ErrorSeverity::Error,
            decreases node_graph.nodes@.len() - i,
        {
            let node = &node_graph.nodes[i];
            let mut j: usize = 0;
            let ghost before = errors_view(self.errors@);
            while j < node.inputs.len()
                invariant
                    j <= node.inputs@.len(),
                    *node == node_graph.nodes@[i as int],
                    self.validates() == old(self).validates(),
                    self.warnings@ == old(self).warnings@,
                    errors_view(self.errors@) == before + node_missing_inputs(
                        *node_graph,
                        *node,
                        j as nat,
                    ),
                    forall|k: int|
                        0 <= k < self.errors@.len() ==> #[trigger] self.errors@[k].severity
                            == ErrorSeverity::Error,
                decreases node.inputs@.len() - j,
            {
                let input = &node.inputs[j];
                let is_connected = is_input_connected(node_graph, node.id, input.id);
                let ghost errs0 = self.errors@;
                if !is_connected && self.is_required_input(node, &input.id) {
                    let mut msg = String::new();
                    msg.append("Required input '");
                    msg.append(input.name.as_str());
                    msg.append("' is not connected");
                    let e = CompilationError {
                        node_id: Some(node.id),
                        message: msg,
                        severity: ErrorSeverity::Error,
                    };
                    proof {
                        lemma_errors_view_push(errs0, e);
                        assert(error_view(e) == (Some(node.id), missing_input_message(
                            node.inputs@[j as int].name@,
                        )));
                    }
                    self.errors.push(e);
                }
                j = j + 1;
                assert(errors_view(self.errors@) =~= before + node_missing_inputs(
                    *node_graph,
                    *node,
                    j as nat,
                ));
            }
            i = i + 1;
        }
        let ghost errs1 = self.errors@;
        if self.has_cycles(node_graph) {
            let e = CompilationError {
                node_id: None,
                message: CYCLE_MESSAGE.to_owned(),
                severity: ErrorSeverity::Error,
            };
            proof {
                lemma_errors_view_push(errs1, e);
            }
            self.errors.push(e);
        }
        let mut has_out = false;
        let mut k: usize = 0;
        while k < node_graph.nodes.len()
            invariant
                k <= node_graph.nodes@.len(),
                has_out <==> exists|i: int|
                    0 <= i < k && (#[trigger] node_graph.nodes@[i]).kind is OutputColor,
            decreases node_graph.nodes@.len() - k,
        {
            if matches!(node_graph.nodes[k].kind, NodeKind::OutputColor) {
                has_out = true;
            }
            k = k + 1;
        }
        let ghost errs2 = self.errors@;
        if !has_out {
            let e = CompilationError {
                node_id: None,
                message: NO_OUTPUT_MESSAGE.to_owned(),
                severity: ErrorSeverity::Error,
            };
            proof {
                lemma_errors_view_push(errs2, e);
            }
            self.errors.push(e);
        }
        assert(errors_view(self.errors@) =~= validation_errors(*node_graph));
        if self.errors.len() > 0 {
            return Err(copy_errors(&self.errors));
        }
        Ok(())
    }

    /// Every input is required.
    fn is_required_input(&self, node: &Node, port_id: &PortId) -> (b: bool)
        ensures
            b,
    {
        true
    }

    /// Whether some node reaches a cycle along the connections.
    fn has_cycles(&self, node_graph: &NodeGraph) -> (b: bool)
        ensures
            b == has_cycle(*node_graph),
    {
        has_cycles(node_graph)
    }

    /// The WGSL text for a graph.
    fn generate_wgsl_from_graph(&self, node_graph: &NodeGraph) -> (r: String)
        requires
            node_graph.wf(),
        ensures
            r@ == generated_wgsl(*node_graph),
    {
        generate_wgsl(node_graph)
    }
}

} // verus!
