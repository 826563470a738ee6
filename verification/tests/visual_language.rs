use shader_studio::decimal::Decimal;
use shader_studio::node_graph::{NodeGraph, NodeId, NodeKind, Position};
use shader_studio::visual_language_bridge::VisualLanguageBridge;
use shader_studio::visual_language_integration::{VisualLanguageIntegration, VisualNodeEditorExt};
use shader_studio::visual_language_parser::VisualLanguageParser;

fn at(x: i64, y: i64) -> Position {
    Position { x: Decimal::from_int(x), y: Decimal::from_int(y) }
}

fn dec(magnitude: u64, scale: u8) -> Decimal {
    Decimal::new(false, magnitude, scale)
}

fn link(graph: &mut NodeGraph, from: NodeId, to: NodeId, input: usize) {
    let out = graph.output_port(from, 0).unwrap();
    let inp = graph.input_port(to, input).unwrap();
    graph.connect(from, out, to, inp);
}

#[test]
fn test_round_trip_conversion() {
    let mut bridge = VisualLanguageBridge::new();
    let mut original_graph = NodeGraph::new();
    let color_node = original_graph.add_node(
        NodeKind::ConstantVec4([dec(10, 1), dec(0, 1), dec(0, 1), dec(10, 1)]),
        "Red Color",
        at(0, 0),
    );
    let output_node = original_graph.add_node(NodeKind::OutputColor, "Output", at(200, 0));
    link(&mut original_graph, color_node, output_node, 0);

    let result = bridge.round_trip_conversion(&original_graph);
    assert!(result.is_ok());
    let new_graph = result.unwrap();
    assert_eq!(original_graph.nodes.len(), new_graph.nodes.len());
    assert_eq!(original_graph.connections.len(), new_graph.connections.len());
}

#[test]
fn test_compile_and_parse_cycle() {
    let mut bridge = VisualLanguageBridge::new();
    let mut graph = NodeGraph::new();
    let color_node = graph.add_node(
        NodeKind::ConstantVec4([dec(10, 1), dec(5, 1), dec(25, 2), dec(10, 1)]),
        "Color",
        at(0, 0),
    );
    let output_node = graph.add_node(NodeKind::OutputColor, "Output", at(200, 0));
    link(&mut graph, color_node, output_node, 0);

    let wgsl_result = bridge.compile_to_wgsl(&graph);
    assert!(wgsl_result.is_ok());
    let wgsl_code = wgsl_result.unwrap();

    let parsed_result = bridge.parse_to_graph(&wgsl_code);
    assert!(parsed_result.is_ok());
    let parsed_graph = parsed_result.unwrap();
    assert!(parsed_graph.nodes.len() >= 1);
}

#[test]
fn test_visual_language_integration() {
    let mut integration = VisualLanguageIntegration::new();
    let mut node_graph = NodeGraph::new();
    let _time_node = node_graph.add_node(NodeKind::Time, "Time", at(0, 0));
    let _output_node = node_graph.add_node(NodeKind::OutputColor, "Output", at(200, 0));
    let result = integration.compile_node_graph(&node_graph);
    assert!(result.is_err());
}

#[test]
fn test_valid_graph_compilation() {
    let mut integration = VisualLanguageIntegration::new();
    let mut node_graph = NodeGraph::new();
    let color_node = node_graph.add_node(
        NodeKind::ConstantVec4([dec(10, 1), dec(0, 1), dec(0, 1), dec(10, 1)]),
        "Red Color",
        at(0, 0),
    );
    let output_node = node_graph.add_node(NodeKind::OutputColor, "Output", at(200, 0));
    link(&mut node_graph, color_node, output_node, 0);

    let result = integration.compile_node_graph(&node_graph);
    assert!(result.is_ok());
    let wgsl = result.unwrap();
    assert!(wgsl.contains("vec4<f32>(1.0,0.0,0.0,1.0)"));
    assert!(wgsl.contains("return"));
}

#[test]
fn compile_errors_name_the_node() {
    let mut integration = VisualLanguageIntegration::new();
    let mut node_graph = NodeGraph::new();
    let _time_node = node_graph.add_node(NodeKind::Time, "Time", at(0, 0));
    let output_node = node_graph.add_node(NodeKind::OutputColor, "Output", at(200, 0));
    let errors = integration.compile_node_graph(&node_graph).unwrap_err();
    assert_eq!(errors, vec![format!("Node({}): Required input 'Color' is not connected", output_node.0)]);
    assert!(integration.validate_node_graph(&node_graph).is_err());
}

#[test]
fn graph_without_output_is_refused() {
    let mut bridge = VisualLanguageBridge::new();
    let mut graph = NodeGraph::new();
    let _t = graph.add_node(NodeKind::Time, "Time", at(0, 0));
    let errors = bridge.compile_to_wgsl(&graph).unwrap_err();
    assert_eq!(errors, vec!["Graph: Graph must contain at least one output node".to_string()]);
}

#[test]
fn chain_round_trips_with_sources() {
    let mut bridge = VisualLanguageBridge::new();
    let mut graph = NodeGraph::new();
    let time = graph.add_node(NodeKind::Time, "Time", at(0, 0));
    let sine = graph.add_node(NodeKind::Sine, "Sine", at(100, 0));
    let color = graph.add_node(NodeKind::RGB, "Color", at(200, 0));
    let out = graph.add_node(NodeKind::OutputColor, "Output", at(300, 0));
    link(&mut graph, time, sine, 0);
    link(&mut graph, sine, color, 0);
    link(&mut graph, sine, color, 1);
    link(&mut graph, time, color, 2);
    link(&mut graph, color, out, 0);
    assert_eq!(bridge.is_equivalent_after_round_trip(&graph), Ok(true));
    let back = bridge.round_trip_conversion(&graph).unwrap();
    assert!(matches!(back.nodes[1].kind, NodeKind::Sine));
    assert!(matches!(back.nodes[2].kind, NodeKind::RGB));
    assert!(matches!(back.nodes[3].kind, NodeKind::OutputColor));
    assert_eq!(back.nodes[3].title, "Output");
}

#[test]
fn reading_text_without_entry_point_fails() {
    let parser = VisualLanguageParser::new();
    let errors = parser.parse_wgsl_to_graph("fn main() {}\n").unwrap_err();
    assert_eq!(errors.len(), 1);
    assert_eq!(errors[0].line, None);
    assert_eq!(errors[0].message, "No fragment entry point found");
    let mut bridge = VisualLanguageBridge::new();
    assert_eq!(
        bridge.parse_to_graph("fn main() {}\n").unwrap_err(),
        vec!["Line Unknown: No fragment entry point found".to_string()]
    );
}

#[test]
fn reading_unsupported_expression_reports_its_line() {
    let mut bridge = VisualLanguageBridge::new();
    let text = "@fragment\nfn fs_main(@builtin(position) pos: vec4<f32>) -> @location(0) vec4<f32> {\n  let v1: f32 = foo(1.0);\n  return v1;\n}\n";
    assert_eq!(
        bridge.parse_to_graph(text).unwrap_err(),
        vec!["Line 3: Unsupported expression: foo(1.0)".to_string()]
    );
}

#[test]
fn editor_extension_joins_the_error_report() {
    let mut integration = VisualLanguageIntegration::new();
    let mut graph = NodeGraph::new();
    let _rgb = graph.add_node(NodeKind::RGB, "Color", at(0, 0));
    let out = graph.add_node(NodeKind::OutputColor, "Output", at(200, 0));
    let lines = integration.compile_node_graph(&graph).unwrap_err();
    assert!(lines.len() >= 2);
    let report = integration.compile_with_validation(&graph).unwrap_err();
    assert_eq!(report, lines.join("\n"));
    assert!(report.ends_with(&format!("Node({}): Required input 'Color' is not connected", out.0)));
    assert_eq!(integration.validate(&graph).unwrap_err(), report);
}

#[test]
fn editor_extension_compiles_a_connected_graph() {
    let mut integration = VisualLanguageIntegration::new();
    let mut graph = NodeGraph::new();
    let color = graph.add_node(
        NodeKind::ConstantVec4([dec(10, 1), dec(0, 1), dec(0, 1), dec(10, 1)]),
        "Red Color",
        at(0, 0),
    );
    let out = graph.add_node(NodeKind::OutputColor, "Output", at(200, 0));
    link(&mut graph, color, out, 0);
    let direct = integration.compile_node_graph(&graph).unwrap();
    assert_eq!(integration.compile_with_validation(&graph).unwrap(), direct);
    assert_eq!(integration.validate(&graph), Ok(()));
}
