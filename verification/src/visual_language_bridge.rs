//! Conversion in both directions between node graphs and WGSL text.
use vstd::prelude::*;
use crate::codegen::generated_wgsl;
use crate::node_graph::{NodeGraph, NodeId};
use crate::text::{chars_of, nat_text, push_chars, push_nat, push_str, string_of};
use crate::visual_language_compiler::{
    validation_errors, CompilationError, VisualLanguageCompiler, errors_view,
};
use crate::visual_language_parser::{
    graph_of, max_text_len, parse_outcome, ParseError, ReadNode, VisualLanguageParser,
    parse_errors_view,
};

verus! {

/// How a compilation error is reported: `Node(<id>): <message>` or `Graph: <message>`.
pub open spec fn compile_message(e: (Option<NodeId>, Seq<char>)) -> Seq<char> {
    match e.0 {
        Some(id) => "Node("@ + nat_text(id.0 as nat) + "): "@ + e.1,
        None => "Graph: "@ + e.1,
    }
}

/// How a reading error is reported: `Line <n>: <message>` or `Line Unknown: <message>`.
pub open spec fn parse_message(e: (Option<int>, Seq<char>)) -> Seq<char> {
    match e.0 {
        Some(l) => "Line "@ + nat_text(l as nat) + ": "@ + e.1,
        None => "Line Unknown: "@ + e.1,
    }
}

pub open spec fn strings_view(v: Seq<String>) -> Seq<Seq<char>> {
    v.map_values(|s: String| s@)
}

/// The reports of the compilation errors of a graph.
pub open spec fn compile_messages(g: NodeGraph) -> Seq<Seq<char>> {
    validation_errors(g).map_values(|e: (Option<NodeId>, Seq<char>)| compile_message(e))
}

/// The report lines of compilation errors.
pub fn compile_error_strings(errors: &Vec<CompilationError>) -> (r: Vec<String>)
    ensures
        strings_view(r@) == errors_view(errors@).map_values(
            |e: (Option<NodeId>, Seq<char>)| compile_message(e),
        ),
{
    let mut r: Vec<String> = Vec::new();
    let mut i: usize = 0;
    while i < errors.len()
        invariant
            i <= errors@.len(),
            r@.len() == i,
            forall|m: int|
                0 <= m < i ==> (#[trigger] r@[m])@ == compile_message(
                    crate::visual_language_compiler::error_view(errors@[m]),
                ),
        decreases errors@.len() - i,
    {
        let e = &errors[i];
        let mut line: Vec<char> = Vec::new();
        match e.node_id {
            Some(id) => {
                push_str(&mut line, "Node(");
                push_nat(&mut line, id.0 as u128);
                push_str(&mut line, "): ");
            },
            None => {
                push_str(&mut line, "Graph: ");
            },
        }
        let msg = chars_of(e.message.as_str());
        push_chars(&mut line, msg.as_slice());
        assert(line@ == compile_message(crate::visual_language_compiler::error_view(*e)));
        r.push(string_of(line.as_slice()));
        i = i + 1;
    }
    assert(strings_view(r@) =~= errors_view(errors@).map_values(
        |e: (Option<NodeId>, Seq<char>)| compile_message(e),
    ));
    r
}

/// The report lines of reading errors.
pub fn parse_error_strings(errors: &Vec<ParseError>) -> (r: Vec<String>)
    ensures
        strings_view(r@) == parse_errors_view(errors@).map_values(
            |e: (Option<int>, Seq<char>)| parse_message(e),
        ),
{
    let mut r: Vec<String> = Vec::new();
    let mut i: usize = 0;
    while i < errors.len()
        invariant
            i <= errors@.len(),
            r@.len() == i,
            forall|m: int|
                0 <= m < i ==> (#[trigger] r@[m])@ == parse_message(
                    crate::visual_language_parser::parse_error_view(errors@[m]),
                ),
        decreases errors@.len() - i,
    {
        let e = &errors[i];
        let mut line: Vec<char> = Vec::new();
        match e.line {
            Some(l) => {
                push_str(&mut line, "Line ");
                push_nat(&mut line, l as u128);
                push_str(&mut line, ": ");
            },
            None => {
                push_str(&mut line, "Line Unknown: ");
            },
        }
        let msg = chars_of(e.message.as_str());
        push_chars(&mut line, msg.as_slice());
        assert(line@ == parse_message(crate::visual_language_parser::parse_error_view(*e)));
        r.push(string_of(line.as_slice()));
        i = i + 1;
    }
    assert(strings_view(r@) =~= parse_errors_view(errors@).map_values(
        |e: (Option<int>, Seq<char>)| parse_message(e),
    ));
    r
}


/// Compiles graphs to WGSL and reads WGSL back into graphs.
#[derive(Clone, Debug)]
pub struct VisualLanguageBridge {
    compiler: VisualLanguageCompiler,
    parser: VisualLanguageParser,
}

impl VisualLanguageBridge {
    /// The compiler inside validates graphs before it generates code.
    pub closed spec fn wf(&self) -> bool {
        self.compiler.validates()
    }

    pub fn new() -> (b: Self)
        ensures
            b.wf(),
    {
        VisualLanguageBridge { compiler: VisualLanguageCompiler::new(), parser: VisualLanguageParser::new() }
    }

    /// Compiles a graph to WGSL; a graph with validation errors is refused
    /// with one report line per error.
    pub fn compile_to_wgsl(&mut self, node_graph: &NodeGraph) -> (r: Result<String, Vec<String>>)
        requires
            old(self).wf(),
            node_graph.wf(),
        ensures
            final(self).wf(),
            validation_errors(*node_graph).len() > 0 ==> (r matches Err(es) && strings_view(es@)
                == compile_messages(*node_graph)),
            validation_errors(*node_graph).len() == 0 ==> (r matches Ok(code) && code@
                == generated_wgsl(*node_graph)),
    {
        match self.compiler.compile_to_wgsl(node_graph) {
            Ok(code) => Ok(code),
            Err(errors) => Err(compile_error_strings(&errors)),
        }
    }

    /// Reads a graph from WGSL; on failure, one report line per reading error.
    pub fn parse_to_graph(&mut self, wgsl_code: &str) -> (r: Result<NodeGraph, Vec<String>>)
        requires
            old(self).wf(),
            wgsl_code@.len() <= max_text_len(),
        ensures
            final(self).wf(),
            match r {
                Ok(g) => parse_outcome(wgsl_code@) matches Ok(items) && graph_of(g, items),
                Err(es) => parse_outcome(wgsl_code@) matches Err(pe) && strings_view(es@)
                    == pe.map_values(|e: (Option<int>, Seq<char>)| parse_message(e)),
            },
    {
        match self.parser.parse_wgsl_to_graph(wgsl_code) {
            Ok(g) => Ok(g),
            Err(errors) => Err(parse_error_strings(&errors)),
        }
    }

    /// Compiles a graph and reads the generated WGSL back into a graph.
    pub fn round_trip_conversion(&mut self, original_graph: &NodeGraph) -> (r: Result<
        NodeGraph,
        Vec<String>,
    >)
        requires
            old(self).wf(),
            original_graph.wf(),
            generated_wgsl(*original_graph).len() <= max_text_len(),
        ensures
            final(self).wf(),
            validation_errors(*original_graph).len() > 0 ==> (r matches Err(es) && strings_view(
                es@,
            ) == compile_messages(*original_graph)),
            validation_errors(*original_graph).len() == 0 ==> match r {
                Ok(g) => parse_outcome(generated_wgsl(*original_graph)) matches Ok(items)
                    && graph_of(g, items),
                Err(es) => parse_outcome(generated_wgsl(*original_graph)) matches Err(pe)
                    && strings_view(es@) == pe.map_values(
                    |e: (Option<int>, Seq<char>)| parse_message(e),
                ),
            },
    {
        let code = self.compile_to_wgsl(original_graph)?;
        self.parse_to_graph(code.as_str())
    }

    /// Whether the graph read back after compiling has as many nodes and as
    /// many connections as the original.
    pub fn is_equivalent_after_round_trip(&mut self, original_graph: &NodeGraph) -> (r: Result<
        bool,
        Vec<String>,
    >)
        requires
            old(self).wf(),
            original_graph.wf(),
            generated_wgsl(*original_graph).len() <= max_text_len(),
        ensures
            final(self).wf(),
            validation_errors(*original_graph).len() > 0 ==> (r matches Err(es) && strings_view(
                es@,
            ) == compile_messages(*original_graph)),
            validation_errors(*original_graph).len() == 0 ==> match r {
                Ok(b) => parse_outcome(generated_wgsl(*original_graph)) matches Ok(items)
                    && exists|g: NodeGraph|
                    #![trigger graph_of(g, items)]
                    graph_of(g, items) && (b <==> (g.nodes@.len() == original_graph.nodes@.len()
                        && g.connections@.len() == original_graph.connections@.len())),
                Err(es) => parse_outcome(generated_wgsl(*original_graph)) matches Err(pe)
                    && strings_view(es@) == pe.map_values(
                    |e: (Option<int>, Seq<char>)| parse_message(e),
                ),
            },
    {
        let new_graph = self.round_trip_conversion(original_graph)?;
        proof {
            if let Ok(items) = parse_outcome(generated_wgsl(*original_graph)) {
                assert(graph_of(new_graph, items));
            }
        }
        Ok(original_graph.nodes.len() == new_graph.nodes.len() && original_graph.connections.len()
            == new_graph.connections.len())
    }
}

} // verus!
