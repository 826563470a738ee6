# shader_studio

The logic of a WGSL shader studio, verified with Verus.

`src/` is the verified library:

- `node_graph`, `graph_analysis`, `codegen`, `visual_language_compiler`:
  node graphs, cycle detection and their compilation to a WGSL fragment shader;
- `wgsl_reader`, `visual_language_parser`, `visual_language_bridge`,
  `visual_language_integration`: reading such shaders back into graphs;
- `shader_converter`, `shader_transpiler`: ISF, GLSL, HLSL and WGSL conversion;
- `shader_browser`: shader file classification, search, filtering and sorting;
- `shader_module_system`, `module_cache`: modules, import aliases, an LRU cache
  of module accesses (`lru` crate) and dependency resolution with cycle detection;
- `superinstance`: bytecode generation and caching, budgets, sensor rooms;
- `ui_analyzer`: a survey of the features a studio needs, and its reports;
- `parameter_panel`: the uniforms a shader declares, offered as parameters;
- `ui_auditor`, `simple_ui_auditor`, `ui_auditor_minimal`: which panels draw
  real content, event logs and audit reports;
- `spout_syphon_output`, `screenshot_video_export`: the video sender's state
  and frame checks, recording and the export queue, screenshot layouts;
- `text`, `decimal`: string operations and exact decimals the contracts use.

`app/` holds what the library leaves to its caller: file and process I/O,
serde copies of the library's types, clocks, and the floating-point
animation and colour code. `tests/` exercises the library from outside.
