//! The node-graph compiler as the node editor uses it: compilation and
//! validation with errors reported as text lines.
use vstd::prelude::*;
use crate::codegen::generated_wgsl;
use crate::node_graph::NodeGraph;
use crate::visual_language_bridge::{compile_error_strings, compile_messages, strings_view};
use crate::text::{join_strings, join_with};
use crate::visual_language_compiler::{validation_errors, VisualLanguageCompiler};

verus! {

#[derive(Clone, Debug)]
pub struct VisualLanguageIntegration {
    pub compiler: VisualLanguageCompiler,
}

impl VisualLanguageIntegration {
    pub fn new() -> (r: Self)
        ensures
            r.compiler.validates(),
    {
        VisualLanguageIntegration { compiler: VisualLanguageCompiler::new() }
    }

    /// Compiles a graph to WGSL; a graph with validation errors is refused
    /// with one report line per error (`Node(<id>): ...` or `Graph: ...`).
    pub fn compile_node_graph(&mut self, node_graph: &NodeGraph) -> (r: Result<String, Vec<String>>)
        requires
            old(self).compiler.validates(),
            node_graph.wf(),
        ensures
            final(self).compiler.validates(),
            validation_errors(*node_graph).len() > 0 ==> (r matches Err(es) && strings_view(es@)
                == compile_messages(*node_graph)),
            validation_errors(*node_graph).len() == 0 ==> (r matches Ok(code) && code@
                == generated_wgsl(*node_graph)),
    {
        match self.compiler.compile_to_wgsl(node_graph) {
            Ok(wgsl) => Ok(wgsl),
            Err(errors) => Err(compile_error_strings(&errors)),
        }
    }

    /// Checks a graph by compiling it; `Ok(())` exactly when it compiles.
    pub fn validate_node_graph(&mut self, node_graph: &NodeGraph) -> (r: Result<(), Vec<String>>)
        requires
            old(self).compiler.validates(),
            node_graph.wf(),
        ensures
            final(self).compiler.validates(),
            validation_errors(*node_graph).len() > 0 ==> (r matches Err(es) && strings_view(es@)
                == compile_messages(*node_graph)),
            validation_errors(*node_graph).len() == 0 ==> r is Ok,
    {
        match self.compiler.compile_to_wgsl(node_graph) {
            Ok(_) => Ok(()),
            Err(errors) => Err(compile_error_strings(&errors)),
        }
    }

    /// The compiler, for direct use.
    pub fn compiler(&mut self) -> (r: &mut VisualLanguageCompiler)
        ensures
            *r == old(self).compiler,
            final(self).compiler == *final(r),
    {
        &mut self.compiler
    }
}

/// The errors of a graph as one report, one line per error.
pub open spec fn compile_report(g: NodeGraph) -> Seq<char> {
    join_with(compile_messages(g), "\n"@)
}

/// Compilation and validation as the node editor offers them, with the
/// errors joined into one report.
pub trait VisualNodeEditorExt {
    /// The editor's compiler checks graphs before it compiles them.
    spec fn checks_graphs(&self) -> bool;

    /// Compiles a graph; a graph with validation errors is refused with
    /// their report.
    fn compile_with_validation(&mut self, node_graph: &NodeGraph) -> (r: Result<String, String>)
        requires
            old(self).checks_graphs(),
            node_graph.wf(),
        ensures
            final(self).checks_graphs(),
            validation_errors(*node_graph).len() > 0 ==> (r matches Err(e) && e@ == compile_report(
                *node_graph,
            )),
            validation_errors(*node_graph).len() == 0 ==> (r matches Ok(code) && code@
                == generated_wgsl(*node_graph)),
    ;

    /// Checks a graph; a graph with validation errors is refused with their
    /// report.
    fn validate(&mut self, node_graph: &NodeGraph) -> (r: Result<(), String>)
        requires
            old(self).checks_graphs(),
            node_graph.wf(),
        ensures
            final(self).checks_graphs(),
            validation_errors(*node_graph).len() > 0 ==> (r matches Err(e) && e@ == compile_report(
                *node_graph,
            )),
            validation_errors(*node_graph).len() == 0 ==> r is Ok,
    ;
}

impl VisualNodeEditorExt for VisualLanguageIntegration {
    open spec fn checks_graphs(&self) -> bool {
        self.compiler.validates()
    }

    fn compile_with_validation(&mut self, node_graph: &NodeGraph) -> (r: Result<String, String>) {
        match self.compile_node_graph(node_graph) {
            Ok(wgsl) => Ok(wgsl),
            Err(errors) => Err(join_strings(&errors, "\n")),
        }
    }

    fn validate(&mut self, node_graph: &NodeGraph) -> (r: Result<(), String>) {
        match self.validate_node_graph(node_graph) {
            Ok(()) => Ok(()),
            Err(errors) => Err(join_strings(&errors, "\n")),
        }
    }
}

} // verus!
