//! A survey of the features a shader studio needs: each feature has a
//! category, a priority and a status, and the survey reports what is
//! missing, broken or working.
//!
//! What the survey learns of a project (which files exist, what they
//! contain, what a build printed) is handed in by the caller.
use vstd::prelude::*;
use crate::decimal::Decimal;
use crate::text::{
    chars_of, contains, contains_exec, occurs_at, contains_str, eq_chars, eq_str, lines, nat_text, push_chars,
    push_nat, push_str, seq_less, seq_less_exec, string_of, lemma_seq_less_irreflexive,
    lemma_seq_less_transitive, lemma_seq_less_total,
};

verus! {

#[derive(Clone, Copy, Debug, PartialEq, Eq, Structural)]
pub enum FeatureStatus {
    Missing,
    Broken,
    Partial,
    Functional,
}

#[derive(Clone, Copy, Debug, PartialEq, Eq, Structural)]
pub enum LayoutStatus {
    Functional,
    Partial,
    Broken,
}

#[derive(Clone, Copy, Debug, PartialEq, Eq, Structural)]
pub enum Priority {
    Critical,
    High,
    Medium,
    Low,
}

/// A feature and what is known of it.
#[derive(Clone, Debug)]
pub struct FeatureCheck {
    pub name: String,
    pub category: String,
    pub description: String,
    pub status: FeatureStatus,
    pub details: Vec<String>,
    pub priority: Priority,
}

/// What is known of the GPU set-up.
#[derive(Clone, Debug)]
pub struct WgpuDiagnostics {
    pub adapter_info: Option<String>,
    pub device_limits: Option<String>,
    pub surface_capabilities: Option<String>,
    pub backend_type: Option<String>,
    pub initialization_error: Option<String>,
}

/// What is known of the user interface.
#[derive(Clone, Debug)]
pub struct UiStateDiagnostics {
    pub egui_context_exists: bool,
    pub panel_layout_valid: bool,
    pub rendering_pipeline_active: bool,
    pub texture_cache_size: usize,
    pub shader_compilation_errors: Vec<String>,
}

/// A feature as the contracts see it.
pub struct FeatureView {
    pub name: Seq<char>,
    pub category: Seq<char>,
    pub description: Seq<char>,
    pub status: FeatureStatus,
    pub details: Seq<Seq<char>>,
    pub priority: Priority,
}

pub open spec fn strings_view(v: Seq<String>) -> Seq<Seq<char>> {
    v.map_values(|s: String| s@)
}

pub open spec fn feature_view(f: FeatureCheck) -> FeatureView {
    FeatureView {
        name: f.name@,
        category: f.category@,
        description: f.description@,
        status: f.status,
        details: strings_view(f.details@),
        priority: f.priority,
    }
}

pub open spec fn features_view(v: Seq<FeatureCheck>) -> Seq<FeatureView> {
    v.map_values(|f: FeatureCheck| feature_view(f))
}

/// The features a survey starts from, in order.
pub open spec fn initial_features() -> Seq<FeatureView> {
    seq![
        FeatureView {
            name: "WGPU Integration"@,
            category: "Core Rendering"@,
            description: "Direct WebGPU rendering in GUI viewport with high-performance pipeline"@,
            status: FeatureStatus::Missing,
            details: seq!["Requires wgpu device initialization"@, "Surface creation for viewport"@, "Render pipeline setup"@],
            priority: Priority::Critical,
        },
        FeatureView {
            name: "Live Shader Preview"@,
            category: "Core Rendering"@,
            description: "Real-time shader rendering with parameter updates and smooth animation"@,
            status: FeatureStatus::Missing,
            details: seq!["Shader compilation pipeline"@, "Uniform buffer updates"@, "Frame timing control"@],
            priority: Priority::Critical,
        },
        FeatureView {
            name: "Performance Monitoring"@,
            category: "Core Rendering"@,
            description: "FPS counters, render time tracking with overlay display"@,
            status: FeatureStatus::Missing,
            details: seq!["FPS calculation system"@, "Frame time measurement"@, "Overlay rendering"@],
            priority: Priority::High,
        },
        FeatureView {
            name: "Three-Panel Layout"@,
            category: "UI Layout"@,
            description: "Professional three-panel workspace (Center preview, Right controls, Bottom editor)"@,
            status: FeatureStatus::Broken,
            details: seq!["Panel docking system"@, "Resizable panels"@, "Panel visibility toggles"@],
            priority: Priority::Critical,
        },
        FeatureView {
            name: "Shader Browser Panel"@,
            category: "UI Layout"@,
            description: "ISF shader library with search, categories, and favorites"@,
            status: FeatureStatus::Missing,
            details: seq!["File system scanning"@, "Search functionality"@, "Category filtering"@, "Favorites system"@],
            priority: Priority::Critical,
        },
        FeatureView {
            name: "Parameter Panel"@,
            category: "UI Layout"@,
            description: "Interactive shader parameter controls with real-time updates"@,
            status: FeatureStatus::Missing,
            details: seq!["Slider controls"@, "Color pickers"@, "Toggle buttons"@, "Real-time parameter sync"@],
            priority: Priority::Critical,
        },
        FeatureView {
            name: "Code Editor Panel"@,
            category: "UI Layout"@,
            description: "WGSL editor with syntax highlighting and error indicators"@,
            status: FeatureStatus::Partial,
            details: seq!["Syntax highlighting working"@, "Missing error squiggles"@, "Missing auto-completion"@],
            priority: Priority::High,
        },
        FeatureView {
            name: "WGSL Syntax Highlighting"@,
            category: "Shader Systems"@,
            description: "Complete WGSL keyword highlighting with semantic coloring"@,
            status: FeatureStatus::Partial,
            details: seq!["Basic highlighting implemented"@, "Missing semantic analysis"@, "Missing error squiggles"@],
            priority: Priority::High,
        },
        FeatureView {
            name: "Shader Compilation"@,
            category: "Shader Systems"@,
            description: "WGSL shader compilation with error reporting"@,
            status: FeatureStatus::Missing,
            details: seq!["naga compiler integration"@, "Error message parsing"@, "Validation system"@],
            priority: Priority::Critical,
        },
        FeatureView {
            name: "ISF Support"@,
            category: "Shader Systems"@,
            description: "Interactive Shader Format import/export with metadata parsing"@,
            status: FeatureStatus::Missing,
            details: seq!["ISF file parsing"@, "Parameter extraction"@, "Metadata handling"@],
            priority: Priority::High,
        },
        FeatureView {
            name: "Node-based Editor"@,
            category: "Node Editor"@,
            description: "Visual programming interface with drag-and-drop nodes"@,
            status: FeatureStatus::Missing,
            details: seq!["Node graph rendering"@, "Drag-and-drop system"@, "Connection system"@, "Node types"@],
            priority: Priority::High,
        },
        FeatureView {
            name: "Code Generation"@,
            category: "Node Editor"@,
            description: "Automatic WGSL code generation from node graphs"@,
            status: FeatureStatus::Missing,
            details: seq!["Topological sorting"@, "Code template system"@, "Variable naming"@],
            priority: Priority::Medium,
        },
        FeatureView {
            name: "File Dialogs"@,
            category: "File Operations"@,
            description: "Native OS file dialogs with recent files support"@,
            status: FeatureStatus::Missing,
            details: seq!["rfd integration"@, "Recent files tracking"@, "File type filters"@],
            priority: Priority::High,
        },
        FeatureView {
            name: "Project Management"@,
            category: "File Operations"@,
            description: "Project save/load with organized file structure"@,
            status: FeatureStatus::Missing,
            details: seq!["Project file format"@, "Asset management"@, "Project templates"@],
            priority: Priority::Medium,
        },
        FeatureView {
            name: "Shader Conversion"@,
            category: "Export/Import"@,
            description: "WGSL↔GLSL↔HLSL bidirectional conversion"@,
            status: FeatureStatus::Missing,
            details: seq!["naga translation"@, "Format-specific optimizations"@, "Error handling"@],
            priority: Priority::Medium,
        },
        FeatureView {
            name: "FFGL Plugin Generation"@,
            category: "Export/Import"@,
            description: "Generate FFGL plugins from shaders"@,
            status: FeatureStatus::Missing,
            details: seq!["FFGL wrapper generation"@, "Parameter mapping"@, "Plugin packaging"@],
            priority: Priority::Low,
        },
        FeatureView {
            name: "Audio Analysis Engine"@,
            category: "Audio/MIDI"@,
            description: "Real-time FFT analysis with beat detection"@,
            status: FeatureStatus::Missing,
            details: seq!["FFT implementation"@, "Beat detection algorithm"@, "Frequency band analysis"@],
            priority: Priority::Medium,
        },
        FeatureView {
            name: "MIDI Control System"@,
            category: "Audio/MIDI"@,
            description: "MIDI CC to shader parameter mapping with low latency"@,
            status: FeatureStatus::Missing,
            details: seq!["MIDI device enumeration"@, "Message parsing"@, "Parameter mapping"@, "Smoothing system"@],
            priority: Priority::Medium,
        },
        FeatureView {
            name: "Shader Visualizer"@,
            category: "Advanced Features"@,
            description: "AST visualization and dependency graph analysis"@,
            status: FeatureStatus::Missing,
            details: seq!["AST parsing"@, "Graph layout algorithms"@, "Interactive exploration"@],
            priority: Priority::Low,
        },
        FeatureView {
            name: "Performance Profiling"@,
            category: "Advanced Features"@,
            description: "GPU timing analysis and bottleneck identification"@,
            status: FeatureStatus::Missing,
            details: seq!["GPU timer queries"@, "Performance metrics"@, "Optimization hints"@],
            priority: Priority::Low,
        },
        FeatureView {
            name: "Menu System"@,
            category: "Menu System"@,
            description: "Complete menu bar with File, Edit, View, Tools, Help menus"@,
            status: FeatureStatus::Missing,
            details: seq!["Menu bar rendering"@, "Menu item actions"@, "Keyboard shortcuts"@, "Context menus"@],
            priority: Priority::High,
        },
        FeatureView {
            name: "Keyboard Shortcuts"@,
            category: "Menu System"@,
            description: "Full keyboard shortcut system for power users"@,
            status: FeatureStatus::Missing,
            details: seq!["Shortcut mapping"@, "Configurable shortcuts"@, "Shortcut display"@],
            priority: Priority::Medium,
        },
        FeatureView {
            name: "Shader Templates"@,
            category: "Templates"@,
            description: "15+ categorized shader templates with professional examples"@,
            status: FeatureStatus::Missing,
            details: seq!["Template categorization"@, "Template loading system"@, "Example shaders"@],
            priority: Priority::Medium,
        },
        FeatureView {
            name: "Error Handling System"@,
            category: "Error Handling"@,
            description: "Graceful error handling with user feedback and recovery"@,
            status: FeatureStatus::Missing,
            details: seq!["Error types"@, "User notifications"@, "Recovery mechanisms"@],
            priority: Priority::High,
        },
        FeatureView {
            name: "Logging System"@,
            category: "Error Handling"@,
            description: "Structured logging with levels and file output"@,
            status: FeatureStatus::Missing,
            details: seq!["Log levels"@, "File logging"@, "Structured format"@],
            priority: Priority::Medium,
        },
        FeatureView {
            name: "Memory Management"@,
            category: "Performance"@,
            description: "Efficient memory usage with texture pooling and buffer management"@,
            status: FeatureStatus::Missing,
            details: seq!["Texture pooling"@, "Buffer reuse"@, "Memory monitoring"@],
            priority: Priority::Medium,
        },
        FeatureView {
            name: "Cross-platform Support"@,
            category: "Platform"@,
            description: "Windows, macOS, Linux compatibility with native OS integration"@,
            status: FeatureStatus::Missing,
            details: seq!["Platform detection"@, "OS-specific features"@, "Native dialogs"@],
            priority: Priority::Medium,
        },
    ]
}

fn owned(s: &str) -> (r: String)
    ensures
        r@ == s@,
{
    string_of(chars_of(s).as_slice())
}

fn feature(
    name: &str,
    category: &str,
    description: &str,
    status: FeatureStatus,
    details: Vec<String>,
    priority: Priority,
) -> (f: FeatureCheck)
    ensures
        feature_view(f) == (FeatureView {
            name: name@,
            category: category@,
            description: description@,
            status,
            details: strings_view(details@),
            priority,
        }),
{
    FeatureCheck {
        name: owned(name),
        category: owned(category),
        description: owned(description),
        status,
        details,
        priority,
    }
}

fn details3(a: &str, b: &str, c: &str) -> (v: Vec<String>)
    ensures
        strings_view(v@) == seq![a@, b@, c@],
{
    let mut v: Vec<String> = Vec::new();
    v.push(owned(a));
    v.push(owned(b));
    v.push(owned(c));
    assert(strings_view(v@) =~= seq![a@, b@, c@]);
    v
}

fn details4(a: &str, b: &str, c: &str, d: &str) -> (v: Vec<String>)
    ensures
        strings_view(v@) == seq![a@, b@, c@, d@],
{
    let mut v: Vec<String> = Vec::new();
    v.push(owned(a));
    v.push(owned(b));
    v.push(owned(c));
    v.push(owned(d));
    assert(strings_view(v@) =~= seq![a@, b@, c@, d@]);
    v
}

#[verifier::rlimit(80)]
fn initial_feature_list() -> (v: Vec<FeatureCheck>)
    ensures
        features_view(v@) == initial_features(),
{
    let mut v: Vec<FeatureCheck> = Vec::new();
    v.push(feature("WGPU Integration", "Core Rendering", "Direct WebGPU rendering in GUI viewport with high-performance pipeline", FeatureStatus::Missing, details3("Requires wgpu device initialization", "Surface creation for viewport", "Render pipeline setup"), Priority::Critical));
    assert(feature_view(v@[0]) == initial_features()[0]);
    v.push(feature("Live Shader Preview", "Core Rendering", "Real-time shader rendering with parameter updates and smooth animation", FeatureStatus::Missing, details3("Shader compilation pipeline", "Uniform buffer updates", "Frame timing control"), Priority::Critical));
    assert(feature_view(v@[1]) == initial_features()[1]);
    v.push(feature("Performance Monitoring", "Core Rendering", "FPS counters, render time tracking with overlay display", FeatureStatus::Missing, details3("FPS calculation system", "Frame time measurement", "Overlay rendering"), Priority::High));
    assert(feature_view(v@[2]) == initial_features()[2]);
    v.push(feature("Three-Panel Layout", "UI Layout", "Professional three-panel workspace (Center preview, Right controls, Bottom editor)", FeatureStatus::Broken, details3("Panel docking system", "Resizable panels", "Panel visibility toggles"), Priority::Critical));
    assert(feature_view(v@[3]) == initial_features()[3]);
    v.push(feature("Shader Browser Panel", "UI Layout", "ISF shader library with search, categories, and favorites", FeatureStatus::Missing, details4("File system scanning", "Search functionality", "Category filtering", "Favorites system"), Priority::Critical));
    assert(feature_view(v@[4]) == initial_features()[4]);
    v.push(feature("Parameter Panel", "UI Layout", "Interactive shader parameter controls with real-time updates", FeatureStatus::Missing, details4("Slider controls", "Color pickers", "Toggle buttons", "Real-time parameter sync"), Priority::Critical));
    assert(feature_view(v@[5]) == initial_features()[5]);
    v.push(feature("Code Editor Panel", "UI Layout", "WGSL editor with syntax highlighting and error indicators", FeatureStatus::Partial, details3("Syntax highlighting working", "Missing error squiggles", "Missing auto-completion"), Priority::High));
    assert(feature_view(v@[6]) == initial_features()[6]);
    v.push(feature("WGSL Syntax Highlighting", "Shader Systems", "Complete WGSL keyword highlighting with semantic coloring", FeatureStatus::Partial, details3("Basic highlighting implemented", "Missing semantic analysis", "Missing error squiggles"), Priority::High));
    assert(feature_view(v@[7]) == initial_features()[7]);
    v.push(feature("Shader Compilation", "Shader Systems", "WGSL shader compilation with error reporting", FeatureStatus::Missing, details3("naga compiler integration", "Error message parsing", "Validation system"), Priority::Critical));
    assert(feature_view(v@[8]) == initial_features()[8]);
    v.push(feature("ISF Support", "Shader Systems", "Interactive Shader Format import/export with metadata parsing", FeatureStatus::Missing, details3("ISF file parsing", "Parameter extraction", "Metadata handling"), Priority::High));
    assert(feature_view(v@[9]) == initial_features()[9]);
    v.push(feature("Node-based Editor", "Node Editor", "Visual programming interface with drag-and-drop nodes", FeatureStatus::Missing, details4("Node graph rendering", "Drag-and-drop system", "Connection system", "Node types"), Priority::High));
    assert(feature_view(v@[10]) == initial_features()[10]);
    v.push(feature("Code Generation", "Node Editor", "Automatic WGSL code generation from node graphs", FeatureStatus::Missing, details3("Topological sorting", "Code template system", "Variable naming"), Priority::Medium));
    assert(feature_view(v@[11]) == initial_features()[11]);
    v.push(feature("File Dialogs", "File Operations", "Native OS file dialogs with recent files support", FeatureStatus::Missing, details3("rfd integration", "Recent files tracking", "File type filters"), Priority::High));
    assert(feature_view(v@[12]) == initial_features()[12]);
    v.push(feature("Project Management", "File Operations", "Project save/load with organized file structure", FeatureStatus::Missing, details3("Project file format", "Asset management", "Project templates"), Priority::Medium));
    assert(feature_view(v@[13]) == initial_features()[13]);
    v.push(feature("Shader Conversion", "Export/Import", "WGSL↔GLSL↔HLSL bidirectional conversion", FeatureStatus::Missing, details3("naga translation", "Format-specific optimizations", "Error handling"), Priority::Medium));
    assert(feature_view(v@[14]) == initial_features()[14]);
    v.push(feature("FFGL Plugin Generation", "Export/Import", "Generate FFGL plugins from shaders", FeatureStatus::Missing, details3("FFGL wrapper generation", "Parameter mapping", "Plugin packaging"), Priority::Low));
    assert(feature_view(v@[15]) == initial_features()[15]);
    v.push(feature("Audio Analysis Engine", "Audio/MIDI", "Real-time FFT analysis with beat detection", FeatureStatus::Missing, details3("FFT implementation", "Beat detection algorithm", "Frequency band analysis"), Priority::Medium));
    assert(feature_view(v@[16]) == initial_features()[16]);
    v.push(feature("MIDI Control System", "Audio/MIDI", "MIDI CC to shader parameter mapping with low latency", FeatureStatus::Missing, details4("MIDI device enumeration", "Message parsing", "Parameter mapping", "Smoothing system"), Priority::Medium));
    assert(feature_view(v@[17]) == initial_features()[17]);
    v.push(feature("Shader Visualizer", "Advanced Features", "AST visualization and dependency graph analysis", FeatureStatus::Missing, details3("AST parsing", "Graph layout algorithms", "Interactive exploration"), Priority::Low));
    assert(feature_view(v@[18]) == initial_features()[18]);
    v.push(feature("Performance Profiling", "Advanced Features", "GPU timing analysis and bottleneck identification", FeatureStatus::Missing, details3("GPU timer queries", "Performance metrics", "Optimization hints"), Priority::Low));
    assert(feature_view(v@[19]) == initial_features()[19]);
    v.push(feature("Menu System", "Menu System", "Complete menu bar with File, Edit, View, Tools, Help menus", FeatureStatus::Missing, details4("Menu bar rendering", "Menu item actions", "Keyboard shortcuts", "Context menus"), Priority::High));
    assert(feature_view(v@[20]) == initial_features()[20]);
    v.push(feature("Keyboard Shortcuts", "Menu System", "Full keyboard shortcut system for power users", FeatureStatus::Missing, details3("Shortcut mapping", "Configurable shortcuts", "Shortcut display"), Priority::Medium));
    assert(feature_view(v@[21]) == initial_features()[21]);
    v.push(feature("Shader Templates", "Templates", "15+ categorized shader templates with professional examples", FeatureStatus::Missing, details3("Template categorization", "Template loading system", "Example shaders"), Priority::Medium));
    assert(feature_view(v@[22]) == initial_features()[22]);
    v.push(feature("Error Handling System", "Error Handling", "Graceful error handling with user feedback and recovery", FeatureStatus::Missing, details3("Error types", "User notifications", "Recovery mechanisms"), Priority::High));
    assert(feature_view(v@[23]) == initial_features()[23]);
    v.push(feature("Logging System", "Error Handling", "Structured logging with levels and file output", FeatureStatus::Missing, details3("Log levels", "File logging", "Structured format"), Priority::Medium));
    assert(feature_view(v@[24]) == initial_features()[24]);
    v.push(feature("Memory Management", "Performance", "Efficient memory usage with texture pooling and buffer management", FeatureStatus::Missing, details3("Texture pooling", "Buffer reuse", "Memory monitoring"), Priority::Medium));
    assert(feature_view(v@[25]) == initial_features()[25]);
    v.push(feature("Cross-platform Support", "Platform", "Windows, macOS, Linux compatibility with native OS integration", FeatureStatus::Missing, details3("Platform detection", "OS-specific features", "Native dialogs"), Priority::Medium));
    assert(feature_view(v@[26]) == initial_features()[26]);
    assert(features_view(v@) =~= initial_features());
    v
}


/// What a survey is told of a project: whether the renderer source exists,
/// the contents of the files it reads (none when a file cannot be read),
/// what a failed build check printed, and which of the required files exist.
#[derive(Clone, Debug)]
pub struct ProjectFiles {
    pub shader_renderer_exists: bool,
    pub bevy_app: Option<String>,
    pub editor_ui: Option<String>,
    pub cargo_toml: Option<String>,
    pub cargo_output_log: Option<String>,
    pub run_output: Option<String>,
    pub cargo_check_error: Option<String>,
    pub existing_files: Vec<String>,
}

pub open spec fn opt_view(o: Option<String>) -> Option<Seq<char>> {
    match o {
        Some(s) => Some(s@),
        None => None,
    }
}

/// Whether a file's text exists and contains `pat`.
pub open spec fn has(text: Option<Seq<char>>, pat: Seq<char>) -> bool {
    match text {
        Some(t) => contains(t, pat),
        None => false,
    }
}

/// The position of the first feature named `name`.
pub open spec fn first_named(fs: Seq<FeatureView>, name: Seq<char>) -> Option<int>
    decreases fs.len(),
{
    if fs.len() == 0 {
        None
    } else {
        match first_named(fs.drop_last(), name) {
            Some(i) => Some(i),
            None => if fs.last().name == name {
                Some(fs.len() - 1)
            } else {
                None
            },
        }
    }
}

/// The features after the first one named `name` gets `status` and `details`.
pub open spec fn with_update(fs: Seq<FeatureView>, name: Seq<char>, status: FeatureStatus, details: Seq<Seq<char>>) -> Seq<FeatureView> {
    match first_named(fs, name) {
        Some(i) => fs.update(i, FeatureView { status, details, ..fs[i] }),
        None => fs,
    }
}

/// The features of a status and priority, in order.
pub open spec fn select(fs: Seq<FeatureView>, status: FeatureStatus, priority: Priority) -> Seq<FeatureView>
    decreases fs.len(),
{
    if fs.len() == 0 {
        seq![]
    } else {
        select(fs.drop_last(), status, priority) + if fs.last().status == status && fs.last().priority == priority {
            seq![fs.last()]
        } else {
            seq![]
        }
    }
}

/// The names of the features of a status, in order.
pub open spec fn names_with(fs: Seq<FeatureView>, status: FeatureStatus) -> Seq<Seq<char>>
    decreases fs.len(),
{
    if fs.len() == 0 {
        seq![]
    } else {
        names_with(fs.drop_last(), status) + if fs.last().status == status {
            seq![fs.last().name]
        } else {
            seq![]
        }
    }
}

/// A sorted list with `x` added where it belongs, unless it is there already.
pub open spec fn insert_sorted(list: Seq<Seq<char>>, x: Seq<char>) -> Seq<Seq<char>>
    decreases list.len(),
{
    if list.len() == 0 {
        seq![x]
    } else if list[0] == x {
        list
    } else if seq_less(x, list[0]) {
        seq![x] + list
    } else {
        seq![list[0]] + insert_sorted(list.drop_first(), x)
    }
}

/// The categories of the first `k` features, each once, in increasing order.
pub open spec fn categories_upto(fs: Seq<FeatureView>, k: nat) -> Seq<Seq<char>>
    decreases k,
{
    if k == 0 {
        seq![]
    } else {
        insert_sorted(categories_upto(fs, (k - 1) as nat), fs[k - 1].category)
    }
}

pub open spec fn categories(fs: Seq<FeatureView>) -> Seq<Seq<char>> {
    categories_upto(fs, fs.len())
}

/// Surveys the features of a shader studio.
pub struct UIAnalyzer {
    features: Vec<FeatureCheck>,
    missing_features: Vec<String>,
    broken_features: Vec<String>,
    partial_features: Vec<String>,
    functional_features: Vec<String>,
    wgpu_diagnostics: WgpuDiagnostics,
    ui_state_diagnostics: UiStateDiagnostics,
    runtime_errors: Vec<String>,
    performance_metrics: Vec<(String, Decimal)>,
}

impl UIAnalyzer {
    pub closed spec fn spec_features(&self) -> Seq<FeatureView> {
        features_view(self.features@)
    }

    /// The names of the missing, broken, partial and functional features
    /// found by the last analysis.
    pub closed spec fn status_lists(&self) -> (Seq<Seq<char>>, Seq<Seq<char>>, Seq<Seq<char>>, Seq<Seq<char>>) {
        (
            strings_view(self.missing_features@),
            strings_view(self.broken_features@),
            strings_view(self.partial_features@),
            strings_view(self.functional_features@),
        )
    }

    /// The problems found so far, oldest first.
    pub closed spec fn spec_errors(&self) -> Seq<Seq<char>> {
        strings_view(self.runtime_errors@)
    }

    /// The error of the last failed GPU check.
    pub closed spec fn gpu_error(&self) -> Option<Seq<char>> {
        opt_view(self.wgpu_diagnostics.initialization_error)
    }

    /// Whether an interface context exists, whether the panel layout is
    /// valid, whether a rendering pipeline is active, and the preview cache size.
    pub closed spec fn ui_flags(&self) -> (bool, bool, bool, usize) {
        (
            self.ui_state_diagnostics.egui_context_exists,
            self.ui_state_diagnostics.panel_layout_valid,
            self.ui_state_diagnostics.rendering_pipeline_active,
            self.ui_state_diagnostics.texture_cache_size,
        )
    }

    /// The measured frame rate, if any.
    pub closed spec fn fps(&self) -> Option<Decimal> {
        metric_value(self.performance_metrics@, "fps"@)
    }

    /// The recorded metrics are well-formed decimals.
    pub closed spec fn wf(&self) -> bool {
        forall|i: int| 0 <= i < self.performance_metrics@.len() ==> (#[trigger] self.performance_metrics@[i]).1.wf()
    }

    /// A survey of the initial features, all unanalysed, with nothing found yet.
    pub fn new() -> (a: Self)
        ensures
            a.wf(),
            a.spec_features() == initial_features(),
            a.status_lists() == (Seq::<Seq<char>>::empty(), Seq::<Seq<char>>::empty(), Seq::<Seq<char>>::empty(), Seq::<Seq<char>>::empty()),
            a.spec_errors().len() == 0,
            a.gpu_error() is None,
            a.ui_flags() == (false, false, false, 0usize),
            a.fps() is None,
    {
        let a = UIAnalyzer {
            features: initial_feature_list(),
            missing_features: Vec::new(),
            broken_features: Vec::new(),
            partial_features: Vec::new(),
            functional_features: Vec::new(),
            wgpu_diagnostics: WgpuDiagnostics {
                adapter_info: None,
                device_limits: None,
                surface_capabilities: None,
                backend_type: None,
                initialization_error: None,
            },
            ui_state_diagnostics: UiStateDiagnostics {
                egui_context_exists: false,
                panel_layout_valid: false,
                rendering_pipeline_active: false,
                texture_cache_size: 0,
                shader_compilation_errors: Vec::new(),
            },
            runtime_errors: Vec::new(),
            performance_metrics: Vec::new(),
        };
        assert(a.status_lists().0 =~= Seq::<Seq<char>>::empty());
        assert(a.status_lists().1 =~= Seq::<Seq<char>>::empty());
        assert(a.status_lists().2 =~= Seq::<Seq<char>>::empty());
        assert(a.status_lists().3 =~= Seq::<Seq<char>>::empty());
        assert(a.spec_errors() =~= Seq::<Seq<char>>::empty());
        a
    }

    pub fn get_total_features(&self) -> (n: usize)
        ensures
            n == self.spec_features().len(),
    {
        self.features.len()
    }

    pub fn get_functional_features_count(&self) -> (n: usize)
        ensures
            n == self.status_lists().3.len(),
    {
        self.functional_features.len()
    }

    pub fn get_partial_features_count(&self) -> (n: usize)
        ensures
            n == self.status_lists().2.len(),
    {
        self.partial_features.len()
    }

    /// Sets the status and details of the first feature named `feature_name`;
    /// nothing changes when there is none.
    pub fn update_feature_status(&mut self, feature_name: &str, status: FeatureStatus, details: Vec<String>)
        ensures
            final(self).spec_features() == with_update(old(self).spec_features(), feature_name@, status, strings_view(details@)),
            final(self).status_lists() == old(self).status_lists(),
            final(self).spec_errors() == old(self).spec_errors(),
            final(self).gpu_error() == old(self).gpu_error(),
            final(self).ui_flags() == old(self).ui_flags(),
            final(self).fps() == old(self).fps(),
            old(self).wf() ==> final(self).wf(),
    {
        let ghost fv = self.spec_features();
        let key = chars_of(feature_name);
        let mut i: usize = 0;
        let mut found = false;
        while i < self.features.len() && !found
            invariant
                i <= self.features@.len(),
                fv == self.spec_features(),
                key@ == feature_name@,
                found ==> i < fv.len() && fv[i as int].name == feature_name@ && first_named(fv, feature_name@) == Some(i as int),
                !found ==> first_named(fv.subrange(0, i as int), feature_name@) is None,
            decreases self.features@.len() - i + if found { 0int } else { 1int },
        {
            let n = chars_of(self.features[i].name.as_str());
            assert(fv[i as int] == feature_view(self.features@[i as int]));
            assert(fv.subrange(0, i + 1).drop_last() =~= fv.subrange(0, i as int));
            assert(fv.subrange(0, i + 1).last() == fv[i as int]);
            if eq_chars(n.as_slice(), key.as_slice()) {
                found = true;
                proof {
                    lemma_first_named_prefix(fv, feature_name@, (i + 1) as int);
                }
            } else {
                i = i + 1;
            }
        }
        if found {
            let ghost dv = strings_view(details@);
            let mut f = self.features[i].clone_check();
            f.status = status;
            f.details = details;
            self.features.set(i, f);
            assert(self.spec_features() =~= fv.update(i as int, FeatureView { status, details: dv, ..fv[i as int] }));
        } else {
            assert(fv.subrange(0, i as int) =~= fv);
        }
    }
}

/// The metric recorded under `name`.
pub open spec fn metric_value(m: Seq<(String, Decimal)>, name: Seq<char>) -> Option<Decimal>
    decreases m.len(),
{
    if m.len() == 0 {
        None
    } else if m.last().0@ == name {
        Some(m.last().1)
    } else {
        metric_value(m.drop_last(), name)
    }
}

proof fn lemma_first_named_prefix(fs: Seq<FeatureView>, name: Seq<char>, k: int)
    requires
        0 < k <= fs.len(),
        first_named(fs.subrange(0, k - 1), name) is None,
        fs[k - 1].name == name,
    ensures
        first_named(fs, name) == Some(k - 1),
    decreases fs.len(),
{
    if k < fs.len() {
        assert(fs.drop_last().subrange(0, k - 1) =~= fs.subrange(0, k - 1));
        lemma_first_named_prefix(fs.drop_last(), name, k);
    } else {
        assert(fs.drop_last() =~= fs.subrange(0, k - 1));
    }
}

impl FeatureCheck {
    /// A copy of the feature.
    pub fn clone_check(&self) -> (r: FeatureCheck)
        ensures
            feature_view(r) == feature_view(*self),
    {
        let mut details: Vec<String> = Vec::new();
        let mut i: usize = 0;
        while i < self.details.len()
            invariant
                i <= self.details@.len(),
                strings_view(details@) == strings_view(self.details@).subrange(0, i as int),
            decreases self.details@.len() - i,
        {
            let ghost before = strings_view(details@);
            details.push(owned(self.details[i].as_str()));
            assert(strings_view(details@) =~= before.push(self.details@[i as int]@));
            i = i + 1;
            assert(strings_view(self.details@).subrange(0, i as int) =~= strings_view(self.details@).subrange(0, i - 1).push(self.details@[i - 1]@));
        }
        assert(strings_view(self.details@).subrange(0, i as int) =~= strings_view(self.details@));
        FeatureCheck {
            name: owned(self.name.as_str()),
            category: owned(self.category.as_str()),
            description: owned(self.description.as_str()),
            status: self.status,
            details,
            priority: self.priority,
        }
    }
}


pub open spec fn live_preview_found(p: ProjectFiles) -> bool {
    match opt_view(p.editor_ui) {
        Some(e) => contains(e, "Live shader preview"@) && contains(e, "CentralPanel"@),
        None => match opt_view(p.bevy_app) {
            Some(a) => contains(a, "Live shader preview"@) || contains(a, "render_frame"@),
            None => false,
        },
    }
}

pub open spec fn either_has(p: ProjectFiles, pat: Seq<char>) -> bool {
    has(opt_view(p.bevy_app), pat) || has(opt_view(p.editor_ui), pat)
}

/// The three panels and the central panel must all be present; the layout
/// works when the editor also shows the panels' contents.
pub open spec fn layout_found(p: ProjectFiles) -> LayoutStatus {
    if either_has(p, "shader_browser_panel"@) && either_has(p, "parameter_panel"@) && either_has(
        p,
        "code_editor_panel"@,
    ) && either_has(p, "CentralPanel"@) {
        if has(opt_view(p.editor_ui), "Interactive shader parameters"@) || has(
            opt_view(p.editor_ui),
            "Available shaders:"@,
        ) || has(opt_view(p.editor_ui), "Code Editor"@) {
            LayoutStatus::Functional
        } else {
            LayoutStatus::Partial
        }
    } else {
        LayoutStatus::Broken
    }
}

pub open spec fn browser_found(p: ProjectFiles) -> bool {
    match opt_view(p.editor_ui) {
        Some(e) => contains(e, "Available shaders:"@),
        None => has(opt_view(p.bevy_app), "shader_browser_panel"@),
    }
}

pub open spec fn parameters_found(p: ProjectFiles) -> bool {
    match opt_view(p.editor_ui) {
        Some(e) => contains(e, "Interactive shader parameters"@) && contains(e, "Slider"@),
        None => has(opt_view(p.bevy_app), "parameter_panel"@),
    }
}

pub open spec fn compilation_found(p: ProjectFiles) -> bool {
    has(opt_view(p.bevy_app), "✅ Compiled"@) || has(opt_view(p.bevy_app), "❌ Error"@)
}

/// The features after the six checks of an analysis, in order.
pub open spec fn analyzed(fs: Seq<FeatureView>, p: ProjectFiles) -> Seq<FeatureView> {
    let f1 = if p.shader_renderer_exists {
        with_update(fs, "WGPU Integration"@, FeatureStatus::Functional, seq!["WGPU device initialized successfully"@])
    } else {
        with_update(fs, "WGPU Integration"@, FeatureStatus::Missing, seq!["WGPU device not initialized"@])
    };
    let f2 = if live_preview_found(p) {
        with_update(f1, "Live Shader Preview"@, FeatureStatus::Functional, seq!["Live preview rendering working"@])
    } else {
        with_update(f1, "Live Shader Preview"@, FeatureStatus::Missing, seq!["Live preview not functional"@])
    };
    let f3 = match layout_found(p) {
        LayoutStatus::Functional => with_update(
            f2,
            "Three-Panel Layout"@,
            FeatureStatus::Functional,
            seq!["All panels rendering correctly"@],
        ),
        LayoutStatus::Partial => with_update(
            f2,
            "Three-Panel Layout"@,
            FeatureStatus::Partial,
            seq!["Panels exist but missing functionality"@],
        ),
        LayoutStatus::Broken => with_update(f2, "Three-Panel Layout"@, FeatureStatus::Broken, seq!["Panel layout has issues"@]),
    };
    let f4 = if browser_found(p) {
        with_update(f3, "Shader Browser Panel"@, FeatureStatus::Functional, seq!["Shader browser functional"@])
    } else {
        with_update(f3, "Shader Browser Panel"@, FeatureStatus::Missing, seq!["Shader browser not implemented"@])
    };
    let f5 = if parameters_found(p) {
        with_update(f4, "Parameter Panel"@, FeatureStatus::Functional, seq!["Parameter controls working"@])
    } else {
        with_update(f4, "Parameter Panel"@, FeatureStatus::Missing, seq!["Parameter panel not functional"@])
    };
    if compilation_found(p) {
        with_update(f5, "Shader Compilation"@, FeatureStatus::Functional, seq!["Shader compilation working"@])
    } else {
        with_update(f5, "Shader Compilation"@, FeatureStatus::Missing, seq!["Shader compilation not working"@])
    }
}

fn one(s: &str) -> (v: Vec<String>)
    ensures
        strings_view(v@) == seq![s@],
{
    let mut v: Vec<String> = Vec::new();
    v.push(owned(s));
    assert(strings_view(v@) =~= seq![s@]);
    v
}

fn has_exec(text: &Option<String>, pat: &str) -> (b: bool)
    ensures
        b == has(opt_view(*text), pat@),
{
    match text {
        Some(t) => {
            let c = chars_of(t.as_str());
            contains_str(c.as_slice(), pat)
        },
        None => false,
    }
}

fn layout_check(p: &ProjectFiles) -> (l: LayoutStatus)
    ensures
        l == layout_found(*p),
{
    let left = has_exec(&p.bevy_app, "shader_browser_panel") || has_exec(&p.editor_ui, "shader_browser_panel");
    let right = has_exec(&p.bevy_app, "parameter_panel") || has_exec(&p.editor_ui, "parameter_panel");
    let bottom = has_exec(&p.bevy_app, "code_editor_panel") || has_exec(&p.editor_ui, "code_editor_panel");
    let central = has_exec(&p.bevy_app, "CentralPanel") || has_exec(&p.editor_ui, "CentralPanel");
    if left && right && bottom && central {
        if has_exec(&p.editor_ui, "Interactive shader parameters") || has_exec(&p.editor_ui, "Available shaders:")
            || has_exec(&p.editor_ui, "Code Editor") {
            LayoutStatus::Functional
        } else {
            LayoutStatus::Partial
        }
    } else {
        LayoutStatus::Broken
    }
}

fn names_with_exec(fs: &Vec<FeatureCheck>, status: FeatureStatus) -> (r: Vec<String>)
    ensures
        strings_view(r@) == names_with(features_view(fs@), status),
{
    let ghost fv = features_view(fs@);
    let mut r: Vec<String> = Vec::new();
    let mut i: usize = 0;
    assert(fv.subrange(0, 0) =~= Seq::<FeatureView>::empty());
    assert(strings_view(r@) =~= Seq::<Seq<char>>::empty());
    while i < fs.len()
        invariant
            i <= fs@.len(),
            fv == features_view(fs@),
            strings_view(r@) == names_with(fv.subrange(0, i as int), status),
        decreases fs@.len() - i,
    {
        assert(fv.subrange(0, i + 1).drop_last() =~= fv.subrange(0, i as int));
        assert(fv.subrange(0, i + 1).last() == feature_view(fs@[i as int]));
        if fs[i].status == status {
            let ghost before = strings_view(r@);
            r.push(owned(fs[i].name.as_str()));
            assert(strings_view(r@) =~= before.push(fs@[i as int].name@));
        }
        i = i + 1;
    }
    assert(fv.subrange(0, i as int) =~= fv);
    r
}

pub open spec fn refs_view(v: Seq<&FeatureCheck>) -> Seq<FeatureView> {
    v.map_values(|f: &FeatureCheck| feature_view(*f))
}

impl UIAnalyzer {
    /// Analyses a project: the six checks set their features' statuses, then
    /// the features are listed by status.
    pub fn analyze_current_state(&mut self, project: &ProjectFiles)
        ensures
            final(self).spec_features() == analyzed(old(self).spec_features(), *project),
            final(self).status_lists() == (
                names_with(final(self).spec_features(), FeatureStatus::Missing),
                names_with(final(self).spec_features(), FeatureStatus::Broken),
                names_with(final(self).spec_features(), FeatureStatus::Partial),
                names_with(final(self).spec_features(), FeatureStatus::Functional),
            ),
            final(self).spec_errors() == old(self).spec_errors(),
            final(self).gpu_error() == old(self).gpu_error(),
            final(self).ui_flags() == old(self).ui_flags(),
            final(self).fps() == old(self).fps(),
            old(self).wf() ==> final(self).wf(),
    {
        if project.shader_renderer_exists {
            self.update_feature_status("WGPU Integration", FeatureStatus::Functional, one("WGPU device initialized successfully"));
        } else {
            self.update_feature_status("WGPU Integration", FeatureStatus::Missing, one("WGPU device not initialized"));
        }
        let live = match &project.editor_ui {
            Some(e) => {
                let c = chars_of(e.as_str());
                contains_str(c.as_slice(), "Live shader preview") && contains_str(c.as_slice(), "CentralPanel")
            },
            None => match &project.bevy_app {
                Some(a) => {
                    let c = chars_of(a.as_str());
                    contains_str(c.as_slice(), "Live shader preview") || contains_str(c.as_slice(), "render_frame")
                },
                None => false,
            },
        };
        if live {
            self.update_feature_status("Live Shader Preview", FeatureStatus::Functional, one("Live preview rendering working"));
        } else {
            self.update_feature_status("Live Shader Preview", FeatureStatus::Missing, one("Live preview not functional"));
        }
        match layout_check(project) {
            LayoutStatus::Functional => {
                self.update_feature_status("Three-Panel Layout", FeatureStatus::Functional, one("All panels rendering correctly"));
            },
            LayoutStatus::Partial => {
                self.update_feature_status("Three-Panel Layout", FeatureStatus::Partial, one("Panels exist but missing functionality"));
            },
            LayoutStatus::Broken => {
                self.update_feature_status("Three-Panel Layout", FeatureStatus::Broken, one("Panel layout has issues"));
            },
        }
        let browser = match &project.editor_ui {
            Some(e) => {
                let c = chars_of(e.as_str());
                contains_str(c.as_slice(), "Available shaders:")
            },
            None => has_exec(&project.bevy_app, "shader_browser_panel"),
        };
        if browser {
            self.update_feature_status("Shader Browser Panel", FeatureStatus::Functional, one("Shader browser functional"));
        } else {
            self.update_feature_status("Shader Browser Panel", FeatureStatus::Missing, one("Shader browser not implemented"));
        }
        let params = match &project.editor_ui {
            Some(e) => {
                let c = chars_of(e.as_str());
                contains_str(c.as_slice(), "Interactive shader parameters") && contains_str(c.as_slice(), "Slider")
            },
            None => has_exec(&project.bevy_app, "parameter_panel"),
        };
        if params {
            self.update_feature_status("Parameter Panel", FeatureStatus::Functional, one("Parameter controls working"));
        } else {
            self.update_feature_status("Parameter Panel", FeatureStatus::Missing, one("Parameter panel not functional"));
        }
        if has_exec(&project.bevy_app, "✅ Compiled") || has_exec(&project.bevy_app, "❌ Error") {
            self.update_feature_status("Shader Compilation", FeatureStatus::Functional, one("Shader compilation working"));
        } else {
            self.update_feature_status("Shader Compilation", FeatureStatus::Missing, one("Shader compilation not working"));
        }
        self.missing_features = names_with_exec(&self.features, FeatureStatus::Missing);
        self.broken_features = names_with_exec(&self.features, FeatureStatus::Broken);
        self.partial_features = names_with_exec(&self.features, FeatureStatus::Partial);
        self.functional_features = names_with_exec(&self.features, FeatureStatus::Functional);
    }

    fn select_exec(&self, status: FeatureStatus, priority: Priority) -> (r: Vec<&FeatureCheck>)
        ensures
            refs_view(r@) == select(self.spec_features(), status, priority),
    {
        let ghost fv = self.spec_features();
        let mut r: Vec<&FeatureCheck> = Vec::new();
        let mut i: usize = 0;
        assert(fv.subrange(0, 0) =~= Seq::<FeatureView>::empty());
        assert(refs_view(r@) =~= Seq::<FeatureView>::empty());
        while i < self.features.len()
            invariant
                i <= self.features@.len(),
                fv == self.spec_features(),
                refs_view(r@) == select(fv.subrange(0, i as int), status, priority),
            decreases self.features@.len() - i,
        {
            assert(fv.subrange(0, i + 1).drop_last() =~= fv.subrange(0, i as int));
            assert(fv.subrange(0, i + 1).last() == feature_view(self.features@[i as int]));
            if self.features[i].status == status && self.features[i].priority == priority {
                let ghost before = refs_view(r@);
                r.push(&self.features[i]);
                assert(refs_view(r@) =~= before.push(feature_view(self.features@[i as int])));
            }
            i = i + 1;
        }
        assert(fv.subrange(0, i as int) =~= fv);
        r
    }

    /// The critical features that are missing, in order.
    pub fn get_missing_critical_features(&self) -> (r: Vec<&FeatureCheck>)
        ensures
            refs_view(r@) == select(self.spec_features(), FeatureStatus::Missing, Priority::Critical),
    {
        self.select_exec(FeatureStatus::Missing, Priority::Critical)
    }

    /// The high-priority features that are missing, in order.
    pub fn get_missing_high_priority_features(&self) -> (r: Vec<&FeatureCheck>)
        ensures
            refs_view(r@) == select(self.spec_features(), FeatureStatus::Missing, Priority::High),
    {
        self.select_exec(FeatureStatus::Missing, Priority::High)
    }

    /// The critical features that are broken, in order.
    pub fn get_broken_critical_features(&self) -> (r: Vec<&FeatureCheck>)
        ensures
            refs_view(r@) == select(self.spec_features(), FeatureStatus::Broken, Priority::Critical),
    {
        self.select_exec(FeatureStatus::Broken, Priority::Critical)
    }
}


pub const REPORT_HEAD: &'static str = "# WGSL Shader Studio - COMPREHENSIVE UI ANALYSIS REPORT\n\n## Executive Summary\n\n";

pub const REPORT_TAIL: &'static str = "\n\n### Phase 1: Critical Foundation (Week 1)\n1. Fix three-panel UI layout rendering\n2. Implement WGPU integration and shader compilation\n3. Restore shader browser with ISF file loading\n4. Fix parameter panel with real-time updates\n5. Implement basic menu system\n\n### Phase 2: Core Functionality (Week 2)\n1. Complete WGSL syntax highlighting with error indicators\n2. Implement file dialogs and project management\n3. Add performance monitoring overlay\n4. Restore shader conversion capabilities\n5. Implement error handling and logging\n\n### Phase 3: Advanced Features (Week 3-4)\n1. Build node-based editor system\n2. Add audio/MIDI integration\n3. Implement shader visualizer\n4. Add advanced templates and examples\n5. Complete cross-platform support\n\n## TECHNICAL REQUIREMENTS\n\n### Dependencies Required\n- bevy 0.17 + bevy_egui 0.38 (CURRENT)\n- wgpu 0.19+ for rendering\n- naga for shader compilation\n- rfd for file dialogs\n- cpal for audio\n- midir for MIDI\n- serde for serialization\n- tracing for logging\n\n### File Structure Required\n```\nsrc/\n├── bevy_app.rs          # Main Bevy application\n├── editor_ui.rs          # Main UI implementation\n├── ui_analyzer.rs        # This analysis tool\n├── rendering/            # WGPU rendering systems\n│   ├── mod.rs\n│   ├── pipeline.rs     # Render pipeline\n│   ├── shader.rs       # Shader compilation\n│   └── viewport.rs     # Viewport management\n├── shader_systems/       # Shader-related systems\n│   ├── mod.rs\n│   ├── compiler.rs     # WGSL compilation\n│   ├── isf.rs          # ISF support\n│   └── converter.rs    # Format conversion\n├── ui_systems/          # UI component systems\n│   ├── mod.rs\n│   ├── panels.rs       # Panel management\n│   ├── browser.rs      # Shader browser\n│   ├── parameters.rs   # Parameter controls\n│   ├── editor.rs       # Code editor\n│   └── menus.rs        # Menu system\n├── file_systems/        # File operations\n│   ├── mod.rs\n│   ├── dialogs.rs      # File dialogs\n│   ├── project.rs      # Project management\n│   └── templates.rs    # Template system\n├── audio_midi/          # Audio/MIDI integration\n│   ├── mod.rs\n│   ├── audio.rs        # Audio analysis\n│   ├── midi.rs         # MIDI control\n│   └── parameters.rs   # Parameter mapping\n├── node_editor/         # Node-based editor\n│   ├── mod.rs\n│   ├── graph.rs        # Node graph\n│   ├── nodes.rs        # Node types\n│   └── connections.rs  # Connection system\n└── utils/               # Utility functions\n    ├── mod.rs\n    ├── errors.rs       # Error types\n    ├── logging.rs      # Logging setup\n    └── config.rs       # Configuration\n```\n\n## CONCLUSION\n\nThis comprehensive analysis reveals that the WGSL Shader Studio requires **complete reconstruction**\nof all core systems. The current implementation lacks fundamental functionality required for\nbasic shader development workflows.\n\n**Immediate priorities**: Fix UI layout rendering, implement WGPU integration, restore shader\nbrowser functionality, and add basic file operations. Without these critical features, the\napplication cannot perform its core function as a shader development environment.\n\n**Estimated Recovery Time**: 3-4 weeks for basic functionality, 6-8 weeks for full feature parity.\n";

/// `  - <detail>` lines, one per detail.
pub open spec fn detail_lines(d: Seq<Seq<char>>) -> Seq<char>
    decreases d.len(),
{
    if d.len() == 0 {
        seq![]
    } else {
        detail_lines(d.drop_last()) + "  - "@ + d.last() + "\n"@
    }
}

/// The section of a feature: heading and name, category, description, and
/// its details under `label`.
pub open spec fn feature_block(f: FeatureView, heading: Seq<char>, label: Seq<char>) -> Seq<char> {
    heading + f.name + "\n"@ + "- **Category**: "@ + f.category + "\n"@ + "- **Description**: "@
        + f.description + "\n"@ + label + detail_lines(f.details) + "\n"@
}

pub open spec fn feature_blocks(fs: Seq<FeatureView>, heading: Seq<char>, label: Seq<char>) -> Seq<char>
    decreases fs.len(),
{
    if fs.len() == 0 {
        seq![]
    } else {
        feature_blocks(fs.drop_last(), heading, label) + feature_block(fs.last(), heading, label)
    }
}

/// The features of a category, in order.
pub open spec fn in_category(fs: Seq<FeatureView>, c: Seq<char>) -> Seq<FeatureView>
    decreases fs.len(),
{
    if fs.len() == 0 {
        seq![]
    } else {
        in_category(fs.drop_last(), c) + if fs.last().category == c {
            seq![fs.last()]
        } else {
            seq![]
        }
    }
}

pub open spec fn category_block(fs: Seq<FeatureView>, c: Seq<char>) -> Seq<char> {
    let cf = in_category(fs, c);
    "### "@ + c + "\n"@ + "- **Total**: "@ + nat_text(cf.len()) + " features\n"@ + "- **Missing**: "@
        + nat_text(names_with(cf, FeatureStatus::Missing).len()) + "\n"@ + "- **Broken**: "@ + nat_text(
        names_with(cf, FeatureStatus::Broken).len(),
    ) + "\n"@ + "- **Partial**: "@ + nat_text(names_with(cf, FeatureStatus::Partial).len()) + "\n"@
        + "- **Functional**: "@ + nat_text(names_with(cf, FeatureStatus::Functional).len()) + "\n"@
        + "\n"@
}

pub open spec fn category_blocks(fs: Seq<FeatureView>, cats: Seq<Seq<char>>) -> Seq<char>
    decreases cats.len(),
{
    if cats.len() == 0 {
        seq![]
    } else {
        category_blocks(fs, cats.drop_last()) + category_block(fs, cats.last())
    }
}

/// The survey report: counts, the critical and high-priority gaps, the
/// status of each category, and a fixed roadmap.
pub open spec fn report_text(fs: Seq<FeatureView>, functional: nat, partial: nat) -> Seq<char> {
    let cm = select(fs, FeatureStatus::Missing, Priority::Critical);
    let hm = select(fs, FeatureStatus::Missing, Priority::High);
    let cb = select(fs, FeatureStatus::Broken, Priority::Critical);
    REPORT_HEAD@ + "- **Total Features Required**: "@ + nat_text(fs.len()) + "\n"@ + "- **Critical Missing**: "@
        + nat_text(cm.len()) + "\n"@ + "- **High Priority Missing**: "@ + nat_text(hm.len()) + "\n"@
        + "- **Critical Broken**: "@ + nat_text(cb.len()) + "\n"@ + "- **Functional Features**: "@
        + nat_text(functional) + "\n"@ + "- **Partial Features**: "@ + nat_text(partial) + "\n"@
        + "\n## CRITICAL ISSUES - IMMEDIATE ACTION REQUIRED\n\n"@ + (if cm.len() > 0 {
        "### 🚨 CRITICAL MISSING FEATURES\n\n"@ + feature_blocks(cm, "#### "@, "- **Requirements**:\n"@)
    } else {
        seq![]
    }) + (if cb.len() > 0 {
        "### 💥 CRITICAL BROKEN FEATURES\n\n"@ + feature_blocks(cb, "#### "@, "- **Issues**:\n"@)
    } else {
        seq![]
    }) + "## HIGH PRIORITY MISSING FEATURES\n\n"@ + feature_blocks(hm, "### "@, "- **Requirements**:\n"@)
        + "## FEATURE STATUS BY CATEGORY\n\n"@ + category_blocks(fs, categories(fs)) + "## IMPLEMENTATION ROADMAP"@ + REPORT_TAIL@
}

fn write_feature_blocks(out: &mut Vec<char>, fs: &Vec<&FeatureCheck>, heading: &str, label: &str)
    ensures
        final(out)@ == old(out)@ + feature_blocks(refs_view(fs@), heading@, label@),
{
    let ghost fv = refs_view(fs@);
    let mut i: usize = 0;
    assert(fv.subrange(0, 0) =~= Seq::<FeatureView>::empty());
    assert(out@ =~= old(out)@ + feature_blocks(fv.subrange(0, 0), heading@, label@));
    while i < fs.len()
        invariant
            i <= fs@.len(),
            fv == refs_view(fs@),
            out@ == old(out)@ + feature_blocks(fv.subrange(0, i as int), heading@, label@),
        decreases fs@.len() - i,
    {
        let f = fs[i];
        let ghost before = out@;
        push_str(out, heading);
        push_str(out, f.name.as_str());
        push_str(out, "\n");
        push_str(out, "- **Category**: ");
        push_str(out, f.category.as_str());
        push_str(out, "\n");
        push_str(out, "- **Description**: ");
        push_str(out, f.description.as_str());
        push_str(out, "\n");
        push_str(out, label);
        let ghost mid = out@;
        let mut k: usize = 0;
        assert(strings_view(f.details@).subrange(0, 0) =~= Seq::<Seq<char>>::empty());
        while k < f.details.len()
            invariant
                k <= f.details@.len(),
                out@ == mid + detail_lines(strings_view(f.details@).subrange(0, k as int)),
            decreases f.details@.len() - k,
        {
            push_str(out, "  - ");
            push_str(out, f.details[k].as_str());
            push_str(out, "\n");
            assert(strings_view(f.details@).subrange(0, k + 1).drop_last() =~= strings_view(f.details@).subrange(0, k as int));
            k = k + 1;
        }
        assert(strings_view(f.details@).subrange(0, k as int) =~= strings_view(f.details@));
        push_str(out, "\n");
        assert(fv.subrange(0, i + 1).drop_last() =~= fv.subrange(0, i as int));
        assert(fv.subrange(0, i + 1).last() == feature_view(*f));
        assert(out@ =~= old(out)@ + feature_blocks(fv.subrange(0, i + 1), heading@, label@));
        i = i + 1;
    }
    assert(fv.subrange(0, i as int) =~= fv);
}


proof fn lemma_insert_sorted_skip(list: Seq<Seq<char>>, x: Seq<char>, i: int)
    requires
        0 <= i <= list.len(),
        forall|j: int| 0 <= j < i ==> list[j] != x && !seq_less(x, #[trigger] list[j]),
    ensures
        insert_sorted(list, x) == list.subrange(0, i) + insert_sorted(list.subrange(i, list.len() as int), x),
    decreases i,
{
    if i == 0 {
        assert(list.subrange(0, 0) + insert_sorted(list.subrange(0, list.len() as int), x) =~= insert_sorted(list, x)) by {
            assert(list.subrange(0, list.len() as int) =~= list);
        }
    } else {
        let rest = list.drop_first();
        assert forall|j: int| 0 <= j < i - 1 implies rest[j] != x && !seq_less(x, #[trigger] rest[j]) by {
            assert(rest[j] == list[j + 1]);
        }
        lemma_insert_sorted_skip(rest, x, i - 1);
        assert(rest.subrange(i - 1, rest.len() as int) =~= list.subrange(i, list.len() as int));
        assert(seq![list[0]] + rest.subrange(0, i - 1) =~= list.subrange(0, i));
    }
}

fn insert_category(list: &mut Vec<String>, x: &[char])
    ensures
        strings_view(final(list)@) == insert_sorted(strings_view(old(list)@), x@),
{
    let ghost lv = strings_view(list@);
    let mut i: usize = 0;
    let mut stop = false;
    while i < list.len() && !stop
        invariant
            i <= list@.len(),
            lv == strings_view(list@),
            forall|j: int| 0 <= j < i ==> lv[j] != x@ && !seq_less(x@, #[trigger] lv[j]),
            stop ==> i < lv.len() && (lv[i as int] == x@ || seq_less(x@, lv[i as int])),
        decreases list@.len() - i + if stop { 0int } else { 1int },
    {
        let y = chars_of(list[i].as_str());
        if eq_chars(y.as_slice(), x) || seq_less_exec(x, y.as_slice()) {
            stop = true;
        } else {
            i = i + 1;
        }
    }
    proof {
        lemma_insert_sorted_skip(lv, x@, i as int);
    }
    let ghost rest = lv.subrange(i as int, lv.len() as int);
    if stop {
        let y = chars_of(list[i].as_str());
        assert(rest[0] == lv[i as int]);
        if eq_chars(y.as_slice(), x) {
            assert(lv.subrange(0, i as int) + rest =~= lv);
            return;
        }
    } else {
        assert(rest =~= Seq::<Seq<char>>::empty());
    }
    list.insert(i, string_of(x));
    assert(strings_view(list@) =~= lv.subrange(0, i as int) + seq![x@] + rest);
}

fn category_list(fs: &Vec<FeatureCheck>) -> (r: Vec<String>)
    ensures
        strings_view(r@) == categories(features_view(fs@)),
{
    let ghost fv = features_view(fs@);
    let mut r: Vec<String> = Vec::new();
    let mut i: usize = 0;
    assert(strings_view(r@) =~= Seq::<Seq<char>>::empty());
    while i < fs.len()
        invariant
            i <= fs@.len(),
            fv == features_view(fs@),
            strings_view(r@) == categories_upto(fv, i as nat),
        decreases fs@.len() - i,
    {
        let c = chars_of(fs[i].category.as_str());
        insert_category(&mut r, c.as_slice());
        i = i + 1;
    }
    r
}

/// The number of features in a category, and of those missing, broken,
/// partial and functional.
fn category_counts(fs: &Vec<FeatureCheck>, c: &[char]) -> (r: (usize, usize, usize, usize, usize))
    ensures
        ({
            let cf = in_category(features_view(fs@), c@);
            &&& r.0 == cf.len()
            &&& r.1 == names_with(cf, FeatureStatus::Missing).len()
            &&& r.2 == names_with(cf, FeatureStatus::Broken).len()
            &&& r.3 == names_with(cf, FeatureStatus::Partial).len()
            &&& r.4 == names_with(cf, FeatureStatus::Functional).len()
        }),
{
    let ghost fv = features_view(fs@);
    let mut total: usize = 0;
    let mut missing: usize = 0;
    let mut broken: usize = 0;
    let mut partial: usize = 0;
    let mut functional: usize = 0;
    let mut i: usize = 0;
    assert(fv.subrange(0, 0) =~= Seq::<FeatureView>::empty());
    while i < fs.len()
        invariant
            i <= fs@.len(),
            fv == features_view(fs@),
            total <= i,
            ({
                let cf = in_category(fv.subrange(0, i as int), c@);
                &&& total == cf.len()
                &&& missing == names_with(cf, FeatureStatus::Missing).len()
                &&& broken == names_with(cf, FeatureStatus::Broken).len()
                &&& partial == names_with(cf, FeatureStatus::Partial).len()
                &&& functional == names_with(cf, FeatureStatus::Functional).len()
            }),
        decreases fs@.len() - i,
    {
        let ghost before = in_category(fv.subrange(0, i as int), c@);
        assert(fv.subrange(0, i + 1).drop_last() =~= fv.subrange(0, i as int));
        assert(fv.subrange(0, i + 1).last() == feature_view(fs@[i as int]));
        let cat = chars_of(fs[i].category.as_str());
        if eq_chars(cat.as_slice(), c) {
            let ghost after = before.push(feature_view(fs@[i as int]));
            assert(in_category(fv.subrange(0, i + 1), c@) =~= after);
            assert(after.drop_last() =~= before);
            proof {
                lemma_names_with_len(before, before.len());
            }
            total = total + 1;
            match fs[i].status {
                FeatureStatus::Missing => { missing = missing + 1; },
                FeatureStatus::Broken => { broken = broken + 1; },
                FeatureStatus::Partial => { partial = partial + 1; },
                FeatureStatus::Functional => { functional = functional + 1; },
            }
        } else {
            assert(in_category(fv.subrange(0, i + 1), c@) =~= before);
        }
        i = i + 1;
    }
    assert(fv.subrange(0, i as int) =~= fv);
    (total, missing, broken, partial, functional)
}

proof fn lemma_names_with_len(fs: Seq<FeatureView>, n: nat)
    requires
        n == fs.len(),
    ensures
        names_with(fs, FeatureStatus::Missing).len() <= n,
        names_with(fs, FeatureStatus::Broken).len() <= n,
        names_with(fs, FeatureStatus::Partial).len() <= n,
        names_with(fs, FeatureStatus::Functional).len() <= n,
    decreases n,
{
    if n > 0 {
        lemma_names_with_len(fs.drop_last(), (n - 1) as nat);
    }
}


#[verifier::spinoff_prover]
fn write_category_block(out: &mut Vec<char>, fs: &Vec<FeatureCheck>, c: &[char])
    ensures
        final(out)@ == old(out)@ + category_block(features_view(fs@), c@),
{
    let (total, missing, broken, partial, functional) = category_counts(fs, c);
    let mut b: Vec<char> = Vec::new();
    push_str(&mut b, "### ");
    push_chars(&mut b, c);
    push_str(&mut b, "\n");
    push_str(&mut b, "- **Total**: ");
    push_nat(&mut b, total as u128);
    push_str(&mut b, " features\n");
    push_str(&mut b, "- **Missing**: ");
    push_nat(&mut b, missing as u128);
    push_str(&mut b, "\n");
    push_str(&mut b, "- **Broken**: ");
    push_nat(&mut b, broken as u128);
    push_str(&mut b, "\n");
    push_str(&mut b, "- **Partial**: ");
    push_nat(&mut b, partial as u128);
    push_str(&mut b, "\n");
    push_str(&mut b, "- **Functional**: ");
    push_nat(&mut b, functional as u128);
    push_str(&mut b, "\n");
    push_str(&mut b, "\n");
    assert(b@ =~= category_block(features_view(fs@), c@));
    push_chars(out, b.as_slice());
}

fn write_category_blocks(out: &mut Vec<char>, fs: &Vec<FeatureCheck>, cats: &Vec<String>)
    ensures
        final(out)@ == old(out)@ + category_blocks(features_view(fs@), strings_view(cats@)),
{
    let ghost fv = features_view(fs@);
    let ghost cv = strings_view(cats@);
    let mut k: usize = 0;
    assert(cv.subrange(0, 0) =~= Seq::<Seq<char>>::empty());
    assert(out@ =~= old(out)@ + category_blocks(fv, cv.subrange(0, 0)));
    while k < cats.len()
        invariant
            k <= cats@.len(),
            fv == features_view(fs@),
            cv == strings_view(cats@),
            out@ == old(out)@ + category_blocks(fv, cv.subrange(0, k as int)),
        decreases cats@.len() - k,
    {
        let c = chars_of(cats[k].as_str());
        write_category_block(out, fs, c.as_slice());
        assert(cv.subrange(0, k + 1).drop_last() =~= cv.subrange(0, k as int));
        assert(cv.subrange(0, k + 1).last() == c@);
        assert(out@ =~= old(out)@ + category_blocks(fv, cv.subrange(0, k + 1)));
        k = k + 1;
    }
    assert(cv.subrange(0, k as int) =~= cv);
}

impl UIAnalyzer {
    /// The categories of the features, each once, in increasing order.
    fn get_all_categories(&self) -> (r: Vec<String>)
        ensures
            strings_view(r@) == categories(self.spec_features()),
    {
        category_list(&self.features)
    }

    /// The survey report.
    pub fn generate_comprehensive_report(&self) -> (r: String)
        ensures
            r@ == report_text(self.spec_features(), self.status_lists().3.len(), self.status_lists().2.len()),
    {
        let mut out: Vec<char> = Vec::new();
        let cm = self.get_missing_critical_features();
        let hm = self.get_missing_high_priority_features();
        let cb = self.get_broken_critical_features();
        proof {
            assert(refs_view(cm@).len() == cm@.len());
            assert(refs_view(hm@).len() == hm@.len());
            assert(refs_view(cb@).len() == cb@.len());
        }
        push_str(&mut out, REPORT_HEAD);
        push_str(&mut out, "- **Total Features Required**: ");
        push_nat(&mut out, self.features.len() as u128);
        push_str(&mut out, "\n");
        push_str(&mut out, "- **Critical Missing**: ");
        push_nat(&mut out, cm.len() as u128);
        push_str(&mut out, "\n");
        push_str(&mut out, "- **High Priority Missing**: ");
        push_nat(&mut out, hm.len() as u128);
        push_str(&mut out, "\n");
        push_str(&mut out, "- **Critical Broken**: ");
        push_nat(&mut out, cb.len() as u128);
        push_str(&mut out, "\n");
        push_str(&mut out, "- **Functional Features**: ");
        push_nat(&mut out, self.functional_features.len() as u128);
        push_str(&mut out, "\n");
        push_str(&mut out, "- **Partial Features**: ");
        push_nat(&mut out, self.partial_features.len() as u128);
        push_str(&mut out, "\n");
        push_str(&mut out, "\n## CRITICAL ISSUES - IMMEDIATE ACTION REQUIRED\n\n");
        let ghost p1 = out@;
        if cm.len() > 0 {
            push_str(&mut out, "### 🚨 CRITICAL MISSING FEATURES\n\n");
            write_feature_blocks(&mut out, &cm, "#### ", "- **Requirements**:\n");
        }
        let ghost p2 = out@;
        if cb.len() > 0 {
            push_str(&mut out, "### 💥 CRITICAL BROKEN FEATURES\n\n");
            write_feature_blocks(&mut out, &cb, "#### ", "- **Issues**:\n");
        }
        let ghost p3 = out@;
        push_str(&mut out, "## HIGH PRIORITY MISSING FEATURES\n\n");
        write_feature_blocks(&mut out, &hm, "### ", "- **Requirements**:\n");
        push_str(&mut out, "## FEATURE STATUS BY CATEGORY\n\n");
        let cats = self.get_all_categories();
        write_category_blocks(&mut out, &self.features, &cats);
        push_str(&mut out, "## IMPLEMENTATION ROADMAP");
        push_str(&mut out, REPORT_TAIL);
        let ghost fs = self.spec_features();
        let ghost cmv = select(fs, FeatureStatus::Missing, Priority::Critical);
        let ghost cbv = select(fs, FeatureStatus::Broken, Priority::Critical);
        assert(p2 =~= p1 + (if cmv.len() > 0 {
            "### 🚨 CRITICAL MISSING FEATURES\n\n"@ + feature_blocks(cmv, "#### "@, "- **Requirements**:\n"@)
        } else {
            seq![]
        }));
        assert(p3 =~= p2 + (if cbv.len() > 0 {
            "### 💥 CRITICAL BROKEN FEATURES\n\n"@ + feature_blocks(cbv, "#### "@, "- **Issues**:\n"@)
        } else {
            seq![]
        }));
        assert(out@ =~= report_text(fs, self.status_lists().3.len(), self.status_lists().2.len()));
        string_of(out.as_slice())
    }
}


// ---------------------------------------------------------------------------
// Diagnostics
// ---------------------------------------------------------------------------

/// The files a complete project has, with what each is for.
pub open spec fn required_files() -> Seq<(Seq<char>, Seq<char>)> {
    seq![
        ("src/bevy_app.rs"@, "Main Bevy application"@),
        ("src/editor_ui.rs"@, "Main UI implementation"@),
        ("src/rendering/mod.rs"@, "Rendering module"@),
        ("src/shader_systems/mod.rs"@, "Shader systems module"@),
        ("src/ui_systems/mod.rs"@, "UI systems module"@),
        ("src/file_systems/mod.rs"@, "File systems module"@),
        ("src/audio_midi/mod.rs"@, "Audio/MIDI module"@),
        ("src/node_editor/mod.rs"@, "Node editor module"@),
        ("src/utils/mod.rs"@, "Utilities module"@),
    ]
}

/// The crates a complete project depends on, with what each is for.
pub open spec fn required_dependencies() -> Seq<(Seq<char>, Seq<char>)> {
    seq![
        ("bevy"@, "Game engine framework"@),
        ("bevy_egui"@, "Egui integration for Bevy"@),
        ("wgpu"@, "WebGPU rendering"@),
        ("naga"@, "Shader compilation"@),
        ("rfd"@, "File dialogs"@),
        ("cpal"@, "Audio processing"@),
        ("midir"@, "MIDI support"@),
        ("serde"@, "Serialization"@),
        ("tracing"@, "Logging"@),
    ]
}

/// Log patterns that reveal a problem, with its description.
pub open spec fn error_patterns() -> Seq<(Seq<char>, Seq<char>)> {
    seq![
        ("WGPU initialization failed"@, "WGPU renderer not properly initialized"@),
        ("Using software shader renderer fallback"@, "Critical: Using CPU fallback instead of GPU"@),
        ("Bytes per row does not respect COPY_BYTES_PER_ROW_ALIGNMENT"@, "WGPU texture alignment error"@),
        ("panicked at"@, "Application panic detected"@),
        ("unwrap() on None value"@, "Null pointer/unwrapping error"@),
        ("index out of bounds"@, "Array access error"@),
        ("bevy_egui::EguiPrimaryContextPass"@, "UI system stage error"@),
    ]
}

fn table(
    a: (&'static str, &'static str),
    b: (&'static str, &'static str),
    c: (&'static str, &'static str),
    d: (&'static str, &'static str),
    e: (&'static str, &'static str),
    f: (&'static str, &'static str),
    g: (&'static str, &'static str),
) -> (v: Vec<(&'static str, &'static str)>)
    ensures
        pairs_view(v@) == seq![(a.0@, a.1@), (b.0@, b.1@), (c.0@, c.1@), (d.0@, d.1@), (e.0@, e.1@), (f.0@, f.1@), (g.0@, g.1@)],
{
    let mut v: Vec<(&'static str, &'static str)> = Vec::new();
    v.push(a);
    v.push(b);
    v.push(c);
    v.push(d);
    v.push(e);
    v.push(f);
    v.push(g);
    assert(pairs_view(v@) =~= seq![(a.0@, a.1@), (b.0@, b.1@), (c.0@, c.1@), (d.0@, d.1@), (e.0@, e.1@), (f.0@, f.1@), (g.0@, g.1@)]);
    v
}

pub open spec fn pairs_view(v: Seq<(&'static str, &'static str)>) -> Seq<(Seq<char>, Seq<char>)> {
    v.map_values(|p: (&'static str, &'static str)| (p.0@, p.1@))
}

fn required_file_table() -> (v: Vec<(&'static str, &'static str)>)
    ensures
        pairs_view(v@) == required_files(),
{
    let mut v = table(
        ("src/bevy_app.rs", "Main Bevy application"),
        ("src/editor_ui.rs", "Main UI implementation"),
        ("src/rendering/mod.rs", "Rendering module"),
        ("src/shader_systems/mod.rs", "Shader systems module"),
        ("src/ui_systems/mod.rs", "UI systems module"),
        ("src/file_systems/mod.rs", "File systems module"),
        ("src/audio_midi/mod.rs", "Audio/MIDI module"),
    );
    let ghost v0 = pairs_view(v@);
    v.push(("src/node_editor/mod.rs", "Node editor module"));
    assert(pairs_view(v@) =~= v0.push(("src/node_editor/mod.rs"@, "Node editor module"@)));
    let ghost v1 = pairs_view(v@);
    v.push(("src/utils/mod.rs", "Utilities module"));
    assert(pairs_view(v@) =~= v1.push(("src/utils/mod.rs"@, "Utilities module"@)));
    assert(pairs_view(v@) =~= required_files());
    v
}

fn dependency_table() -> (v: Vec<(&'static str, &'static str)>)
    ensures
        pairs_view(v@) == required_dependencies(),
{
    let mut v = table(
        ("bevy", "Game engine framework"),
        ("bevy_egui", "Egui integration for Bevy"),
        ("wgpu", "WebGPU rendering"),
        ("naga", "Shader compilation"),
        ("rfd", "File dialogs"),
        ("cpal", "Audio processing"),
        ("midir", "MIDI support"),
    );
    let ghost v0 = pairs_view(v@);
    v.push(("serde", "Serialization"));
    assert(pairs_view(v@) =~= v0.push(("serde"@, "Serialization"@)));
    let ghost v1 = pairs_view(v@);
    v.push(("tracing", "Logging"));
    assert(pairs_view(v@) =~= v1.push(("tracing"@, "Logging"@)));
    assert(pairs_view(v@) =~= required_dependencies());
    v
}

fn error_pattern_table() -> (v: Vec<(&'static str, &'static str)>)
    ensures
        pairs_view(v@) == error_patterns(),
{
    table(
        ("WGPU initialization failed", "WGPU renderer not properly initialized"),
        ("Using software shader renderer fallback", "Critical: Using CPU fallback instead of GPU"),
        ("Bytes per row does not respect COPY_BYTES_PER_ROW_ALIGNMENT", "WGPU texture alignment error"),
        ("panicked at", "Application panic detected"),
        ("unwrap() on None value", "Null pointer/unwrapping error"),
        ("index out of bounds", "Array access error"),
        ("bevy_egui::EguiPrimaryContextPass", "UI system stage error"),
    )
}

/// The paths of the files a complete project has, for the caller to look for.
pub fn required_file_paths() -> (r: Vec<String>)
    ensures
        strings_view(r@) == required_files().map_values(|e: (Seq<char>, Seq<char>)| e.0),
{
    let t = required_file_table();
    let mut r: Vec<String> = Vec::new();
    let mut i: usize = 0;
    while i < t.len()
        invariant
            i <= t@.len(),
            pairs_view(t@) == required_files(),
            strings_view(r@) == required_files().subrange(0, i as int).map_values(|e: (Seq<char>, Seq<char>)| e.0),
        decreases t@.len() - i,
    {
        let ghost before = strings_view(r@);
        r.push(owned(t[i].0));
        assert(pairs_view(t@)[i as int] == (t@[i as int].0@, t@[i as int].1@));
        assert(strings_view(r@) =~= before.push(t@[i as int].0@));
        assert(required_files().subrange(0, i + 1).map_values(|e: (Seq<char>, Seq<char>)| e.0) =~= required_files().subrange(
            0,
            i as int,
        ).map_values(|e: (Seq<char>, Seq<char>)| e.0).push(required_files()[i as int].0));
        i = i + 1;
    }
    assert(required_files().subrange(0, i as int) =~= required_files());
    r
}

/// The features after checking each entry of a table: a feature named
/// `prefix + entry` is found when `present` holds of the entry.
pub open spec fn table_checks(
    fs: Seq<FeatureView>,
    t: Seq<(Seq<char>, Seq<char>)>,
    prefix: Seq<char>,
    present: spec_fn(Seq<char>) -> bool,
    k: nat,
) -> Seq<FeatureView>
    decreases k,
{
    if k == 0 {
        fs
    } else {
        let before = table_checks(fs, t, prefix, present, (k - 1) as nat);
        let e = t[k - 1];
        with_update(
            before,
            prefix + e.0,
            if present(e.0) {
                FeatureStatus::Functional
            } else {
                FeatureStatus::Missing
            },
            seq![e.1],
        )
    }
}

/// The problems the logs and sources reveal, in the order the diagnostics find them.
pub open spec fn pattern_errors(log: Option<Seq<char>>, t: Seq<(Seq<char>, Seq<char>)>, k: nat) -> Seq<Seq<char>>
    decreases k,
{
    if k == 0 {
        seq![]
    } else {
        pattern_errors(log, t, (k - 1) as nat) + if has(log, t[k - 1].0) {
            seq![t[k - 1].1 + ": "@ + t[k - 1].0]
        } else {
            seq![]
        }
    }
}

pub open spec fn slow_rendering(p: ProjectFiles) -> bool {
    has(opt_view(p.run_output), "0.2 FPS"@) || has(opt_view(p.run_output), "4-6 seconds"@)
}

pub open spec fn log_line_count(p: ProjectFiles) -> Option<nat> {
    match opt_view(p.run_output) {
        Some(t) => Some(lines(t).len()),
        None => None,
    }
}

pub open spec fn diagnostic_errors(p: ProjectFiles) -> Seq<Seq<char>> {
    let bevy = opt_view(p.bevy_app);
    let editor = opt_view(p.editor_ui);
    (if has(opt_view(p.cargo_output_log), "wgpu"@) && has(opt_view(p.cargo_output_log), "error"@) {
        seq!["WGPU compilation errors detected"@]
    } else {
        seq![]
    }) + pattern_errors(opt_view(p.run_output), error_patterns(), error_patterns().len()) + (if slow_rendering(p) {
        seq!["CRITICAL PERFORMANCE: 0.2 FPS detected - CPU rendering fallback"@]
    } else {
        seq![]
    }) + (match log_line_count(p) {
        Some(n) => if n > 1000 {
            seq!["Excessive logging detected: "@ + nat_text(n) + " lines"@]
        } else {
            seq![]
        },
        None => seq![],
    }) + (if has(bevy, "initialize_wgpu_renderer"@) && has(bevy, "panic!"@) {
        seq![]
    } else if has(bevy, "WGPU renderer placeholder"@) {
        seq!["CRITICAL: WGPU placeholder still present - initialization not forced"@]
    } else {
        seq![]
    }) + (if has(editor, "compile_and_render_shader"@) && has(editor, "NO SOFTWARE FALLBACK"@) {
        seq![]
    } else if has(editor, "SoftwareShaderRenderer"@) {
        seq!["CRITICAL: Software shader renderer still present"@]
    } else {
        seq![]
    })
}

/// A frame rate of 0.2.
pub open spec fn slow_fps() -> Decimal {
    Decimal { negative: false, magnitude: 2, scale: 1 }
}


/// The problems that mark themselves critical.
pub open spec fn critical_errors(es: Seq<Seq<char>>) -> Seq<Seq<char>>
    decreases es.len(),
{
    if es.len() == 0 {
        seq![]
    } else {
        critical_errors(es.drop_last()) + if contains(es.last(), "CRITICAL"@) {
            seq![es.last()]
        } else {
            seq![]
        }
    }
}

pub open spec fn error_lines(es: Seq<Seq<char>>) -> Seq<char>
    decreases es.len(),
{
    if es.len() == 0 {
        seq![]
    } else {
        error_lines(es.drop_last()) + "- **"@ + es.last() + "**\n"@
    }
}

/// Whether a number is below one.
pub open spec fn below_one(d: Decimal) -> bool {
    d.negative || d.magnitude < crate::decimal::pow10(d.scale as nat)
}

pub const PLAN_HEAD: &'static str = "# SURGICAL FIX PLAN - CRITICAL UI ISSUES\n\n## IMMEDIATE LIFE-THREATENING ISSUES\n\n";

pub const PLAN_GPU_FIX: &'static str = "**SURGICAL FIX**: Force WGPU initialization with panic on failure\n**LOCATION**: src/bevy_app.rs - initialize_wgpu_renderer()\n\n";

pub const PLAN_PERF_FIX: &'static str = "**ROOT CAUSE**: CPU software rendering fallback\n**SURGICAL FIX**: Remove all CPU fallback code, force GPU-only rendering\n**LOCATION**: src/editor_ui.rs - compile_and_render_shader()\n\n";

pub const PLAN_CONTEXT_FIX: &'static str = "### 🖥️ UI CONTEXT FAILURE\n\n**ISSUE**: EguiContext not properly initialized\n**SURGICAL FIX**: Ensure EguiContext is created in Bevy setup\n**LOCATION**: src/bevy_app.rs - setup() function\n\n";

pub const PLAN_LAYOUT_FIX: &'static str = "### 📐 PANEL LAYOUT BROKEN\n\n**ISSUE**: UI panels not properly laid out\n**SURGICAL FIX**: Implement proper egui layout with horizontal/vertical containers\n**LOCATION**: src/editor_ui.rs - ui() function\n\n";

pub const PLAN_TAIL: &'static str = "## SURGICAL INTERVENTION STEPS\n\n1. **STOP ALL APP LAUNCHES** - Do not run broken code\n2. **FIX WGPU INITIALIZATION** - Force GPU initialization with panic on failure\n3. **REMOVE CPU FALLBACK** - Delete all software rendering code\n4. **FIX UI LAYOUT** - Implement proper three-panel layout\n5. **VALIDATE RENDERING** - Ensure texture alignment and buffer management\n6. **TEST COMPREHENSIVELY** - Verify all UI elements render and function\n\n## SUCCESS CRITERIA\n\n- ✅ WGPU initializes successfully with no fallback\n- ✅ UI panels render and are interactive\n- ✅ Shader preview displays correctly\n- ✅ Performance is > 30 FPS (GPU-accelerated)\n- ✅ No critical runtime errors\n\n";

/// The fix plan: the critical problems, the GPU failure, a frame rate below
/// one, the interface failures, and fixed steps.
pub open spec fn plan_text(
    errors: Seq<Seq<char>>,
    gpu_error: Option<Seq<char>>,
    fps: Option<Decimal>,
    context_exists: bool,
    layout_valid: bool,
) -> Seq<char> {
    PLAN_HEAD@ + critical_section(errors) + (match gpu_error {
        Some(e) => "### 💥 WGPU INITIALIZATION FAILURE\n\n"@ + "Error: "@ + e + "\n\n"@ + PLAN_GPU_FIX@,
        None => seq![],
    }) + fps_section(fps) + (if !context_exists {
        PLAN_CONTEXT_FIX@
    } else {
        seq![]
    }) + (if !layout_valid {
        PLAN_LAYOUT_FIX@
    } else {
        seq![]
    }) + PLAN_TAIL@
}

fn lookup_metric(m: &Vec<(String, Decimal)>, name: &str) -> (r: Option<Decimal>)
    ensures
        r == metric_value(m@, name@),
{
    let key = chars_of(name);
    let mut i = m.len();
    assert(m@.subrange(0, m@.len() as int) =~= m@);
    while i > 0
        invariant
            i <= m@.len(),
            key@ == name@,
            metric_value(m@, name@) == metric_value(m@.subrange(0, i as int), name@),
        decreases i,
    {
        let k = chars_of(m[i - 1].0.as_str());
        assert(m@.subrange(0, i as int).drop_last() =~= m@.subrange(0, i - 1));
        assert(m@.subrange(0, i as int).last() == m@[i - 1]);
        if eq_chars(k.as_slice(), key.as_slice()) {
            return Some(m[i - 1].1);
        }
        i = i - 1;
    }
    assert(m@.subrange(0, 0) =~= Seq::<(String, Decimal)>::empty());
    None
}

pub open spec fn critical_section(errors: Seq<Seq<char>>) -> Seq<char> {
    let crit = critical_errors(errors);
    if crit.len() > 0 {
        "### 🚨 CRITICAL RUNTIME ERRORS\n\n"@ + error_lines(crit) + "\n"@
    } else {
        seq![]
    }
}

pub open spec fn fps_section(fps: Option<Decimal>) -> Seq<char> {
    match fps {
        Some(f) => if below_one(f) {
            "### ⚡ PERFORMANCE CRISIS\n\n"@ + "Current FPS: "@ + f.text() + " (UNUSABLE)\n"@ + PLAN_PERF_FIX@
        } else {
            seq![]
        },
        None => seq![],
    }
}

fn write_critical_section(out: &mut Vec<char>, errors: &Vec<String>)
    ensures
        final(out)@ == old(out)@ + critical_section(strings_view(errors@)),
{
    let ghost ev = strings_view(errors@);
    let mut crit: Vec<&String> = Vec::new();
    let mut i: usize = 0;
    assert(ev.subrange(0, 0) =~= Seq::<Seq<char>>::empty());
    while i < errors.len()
        invariant
            i <= errors@.len(),
            ev == strings_view(errors@),
            crit@.map_values(|e: &String| e@) == critical_errors(ev.subrange(0, i as int)),
        decreases errors@.len() - i,
    {
        assert(ev.subrange(0, i + 1).drop_last() =~= ev.subrange(0, i as int));
        assert(ev.subrange(0, i + 1).last() == errors@[i as int]@);
        let c = chars_of(errors[i].as_str());
        if contains_str(c.as_slice(), "CRITICAL") {
            let ghost before = crit@.map_values(|e: &String| e@);
            crit.push(&errors[i]);
            assert(crit@.map_values(|e: &String| e@) =~= before.push(errors@[i as int]@));
        }
        i = i + 1;
    }
    assert(ev.subrange(0, i as int) =~= ev);
    let ghost cv = critical_errors(ev);
    if crit.len() > 0 {
        push_str(out, "### 🚨 CRITICAL RUNTIME ERRORS\n\n");
        let ghost p1 = out@;
        let mut k: usize = 0;
        assert(cv.subrange(0, 0) =~= Seq::<Seq<char>>::empty());
        while k < crit.len()
            invariant
                k <= crit@.len(),
                crit@.map_values(|e: &String| e@) == cv,
                out@ == p1 + error_lines(cv.subrange(0, k as int)),
            decreases crit@.len() - k,
        {
            push_str(out, "- **");
            push_str(out, crit[k].as_str());
            push_str(out, "**\n");
            assert(cv.subrange(0, k + 1).drop_last() =~= cv.subrange(0, k as int));
            assert(cv[k as int] == crit@[k as int]@);
            k = k + 1;
        }
        assert(cv.subrange(0, k as int) =~= cv);
        push_str(out, "\n");
    } else {
        assert(cv.len() == 0);
    }
}

fn write_fps_section(out: &mut Vec<char>, m: &Vec<(String, Decimal)>)
    requires
        forall|i: int| 0 <= i < m@.len() ==> (#[trigger] m@[i]).1.wf(),
    ensures
        final(out)@ == old(out)@ + fps_section(metric_value(m@, "fps"@)),
{
    match lookup_metric(m, "fps") {
        Some(f) => {
            proof {
                lemma_metric_wf(m@, "fps"@);
            }
            let p = crate::decimal::pow10_exec(f.scale);
            if f.negative || f.magnitude < p {
                push_str(out, "### ⚡ PERFORMANCE CRISIS\n\n");
                push_str(out, "Current FPS: ");
                f.write_to(out);
                push_str(out, " (UNUSABLE)\n");
                push_str(out, PLAN_PERF_FIX);
            }
        },
        None => {},
    }
}

impl UIAnalyzer {
    /// The fix plan for what the diagnostics found.
    pub fn generate_surgical_fix_plan(&self) -> (r: String)
        requires
            self.wf(),
        ensures
            r@ == plan_text(self.spec_errors(), self.gpu_error(), self.fps(), self.ui_flags().0, self.ui_flags().1),
    {
        let mut out: Vec<char> = Vec::new();
        push_str(&mut out, PLAN_HEAD);
        write_critical_section(&mut out, &self.runtime_errors);
        let ghost p2 = out@;
        match &self.wgpu_diagnostics.initialization_error {
            Some(e) => {
                push_str(&mut out, "### 💥 WGPU INITIALIZATION FAILURE\n\n");
                push_str(&mut out, "Error: ");
                push_str(&mut out, e.as_str());
                push_str(&mut out, "\n\n");
                push_str(&mut out, PLAN_GPU_FIX);
            },
            None => {},
        }
        write_fps_section(&mut out, &self.performance_metrics);
        if !self.ui_state_diagnostics.egui_context_exists {
            push_str(&mut out, PLAN_CONTEXT_FIX);
        }
        if !self.ui_state_diagnostics.panel_layout_valid {
            push_str(&mut out, PLAN_LAYOUT_FIX);
        }
        push_str(&mut out, PLAN_TAIL);
        assert(out@ =~= plan_text(self.spec_errors(), self.gpu_error(), self.fps(), self.ui_flags().0, self.ui_flags().1));
        string_of(out.as_slice())
    }
}

proof fn lemma_metric_wf(m: Seq<(String, Decimal)>, name: Seq<char>)
    requires
        forall|i: int| 0 <= i < m.len() ==> (#[trigger] m[i]).1.wf(),
    ensures
        metric_value(m, name) matches Some(d) ==> d.wf(),
    decreases m.len(),
{
    if m.len() > 0 && m.last().0@ != name {
        lemma_metric_wf(m.drop_last(), name);
    }
}


fn joined(a: &str, b: &str) -> (r: String)
    ensures
        r@ == a@ + b@,
{
    let mut v: Vec<char> = Vec::new();
    push_str(&mut v, a);
    push_str(&mut v, b);
    string_of(v.as_slice())
}

fn message(a: &str, b: &str, c: &str) -> (r: String)
    ensures
        r@ == a@ + b@ + c@,
{
    let mut v: Vec<char> = Vec::new();
    push_str(&mut v, a);
    push_str(&mut v, b);
    push_str(&mut v, c);
    string_of(v.as_slice())
}

impl UIAnalyzer {
    fn push_error(&mut self, e: String)
        ensures
            final(self).spec_errors() == old(self).spec_errors().push(e@),
            final(self).spec_features() == old(self).spec_features(),
            final(self).status_lists() == old(self).status_lists(),
            final(self).gpu_error() == old(self).gpu_error(),
            final(self).ui_flags() == old(self).ui_flags(),
            final(self).fps() == old(self).fps(),
            final(self).performance_metrics == old(self).performance_metrics,
    {
        let ghost before = self.spec_errors();
        self.runtime_errors.push(e);
        assert(self.spec_errors() =~= before.push(e@));
    }

    /// Records what a failed build check printed, whether a build log shows
    /// GPU errors, and whether the editor handles texture row alignment.
    fn diagnose_wgpu_state(&mut self, project: &ProjectFiles)
        ensures
            final(self).spec_errors() == old(self).spec_errors() + if has(opt_view(project.cargo_output_log), "wgpu"@)
                && has(opt_view(project.cargo_output_log), "error"@) {
                seq!["WGPU compilation errors detected"@]
            } else {
                seq![]
            },
            final(self).gpu_error() == match opt_view(project.cargo_check_error) {
                Some(e) => Some(e),
                None => old(self).gpu_error(),
            },
            final(self).ui_flags() == (
                old(self).ui_flags().0,
                old(self).ui_flags().1,
                old(self).ui_flags().2 || has(opt_view(project.editor_ui), "COPY_BYTES_PER_ROW_ALIGNMENT"@),
                old(self).ui_flags().3,
            ),
            final(self).spec_features() == old(self).spec_features(),
            final(self).status_lists() == old(self).status_lists(),
            final(self).performance_metrics == old(self).performance_metrics,
    {
        let ghost e0 = self.spec_errors();
        match &project.cargo_check_error {
            Some(e) => {
                self.wgpu_diagnostics.initialization_error = Some(owned(e.as_str()));
            },
            None => {},
        }
        if has_exec(&project.cargo_output_log, "wgpu") && has_exec(&project.cargo_output_log, "error") {
            self.push_error(owned("WGPU compilation errors detected"));
        } else {
            assert(self.spec_errors() =~= e0 + Seq::<Seq<char>>::empty());
        }
        if has_exec(&project.editor_ui, "COPY_BYTES_PER_ROW_ALIGNMENT") {
            self.ui_state_diagnostics.rendering_pipeline_active = true;
        }
    }

    /// Records whether the application sets up an interface context, lays
    /// out its panels, and keeps a preview cache.
    fn diagnose_ui_state(&mut self, project: &ProjectFiles)
        ensures
            final(self).ui_flags() == (
                old(self).ui_flags().0 || (has(opt_view(project.bevy_app), "EguiContext"@) && has(opt_view(project.bevy_app), "egui"@)),
                old(self).ui_flags().1 || has(opt_view(project.editor_ui), "ui.horizontal"@) || has(opt_view(project.editor_ui), "ui.vertical"@),
                old(self).ui_flags().2,
                if has(opt_view(project.editor_ui), "PreviewCache"@) { 1usize } else { old(self).ui_flags().3 },
            ),
            final(self).spec_errors() == old(self).spec_errors(),
            final(self).gpu_error() == old(self).gpu_error(),
            final(self).spec_features() == old(self).spec_features(),
            final(self).status_lists() == old(self).status_lists(),
            final(self).performance_metrics == old(self).performance_metrics,
    {
        if has_exec(&project.bevy_app, "EguiContext") && has_exec(&project.bevy_app, "egui") {
            self.ui_state_diagnostics.egui_context_exists = true;
        }
        if has_exec(&project.editor_ui, "ui.horizontal") || has_exec(&project.editor_ui, "ui.vertical") {
            self.ui_state_diagnostics.panel_layout_valid = true;
        }
        if has_exec(&project.editor_ui, "PreviewCache") {
            self.ui_state_diagnostics.texture_cache_size = 1;
        }
    }

    /// Records each known problem the run log shows.
    fn check_runtime_errors(&mut self, project: &ProjectFiles)
        ensures
            final(self).spec_errors() == old(self).spec_errors() + pattern_errors(
                opt_view(project.run_output),
                error_patterns(),
                error_patterns().len(),
            ),
            final(self).gpu_error() == old(self).gpu_error(),
            final(self).ui_flags() == old(self).ui_flags(),
            final(self).spec_features() == old(self).spec_features(),
            final(self).status_lists() == old(self).status_lists(),
            final(self).performance_metrics == old(self).performance_metrics,
    {
        let t = error_pattern_table();
        let ghost e0 = self.spec_errors();
        let ghost log = opt_view(project.run_output);
        let mut i: usize = 0;
        assert(self.spec_errors() =~= e0 + pattern_errors(log, error_patterns(), 0));
        while i < t.len()
            invariant
                i <= t@.len(),
                pairs_view(t@) == error_patterns(),
                log == opt_view(project.run_output),
                self.spec_errors() == e0 + pattern_errors(log, error_patterns(), i as nat),
                self.gpu_error() == old(self).gpu_error(),
                self.ui_flags() == old(self).ui_flags(),
                self.spec_features() == old(self).spec_features(),
                self.status_lists() == old(self).status_lists(),
                self.performance_metrics == old(self).performance_metrics,
            decreases t@.len() - i,
        {
            let (pattern, description) = t[i];
            assert(error_patterns()[i as int] == (pattern@, description@));
            let ghost before = self.spec_errors();
            if has_exec(&project.run_output, pattern) {
                self.push_error(message(description, ": ", pattern));
                assert(self.spec_errors() =~= e0 + pattern_errors(log, error_patterns(), (i + 1) as nat));
            } else {
                assert(self.spec_errors() =~= e0 + pattern_errors(log, error_patterns(), (i + 1) as nat));
            }
            i = i + 1;
        }
    }

    /// Records a frame rate of 0.2 when the run log shows one, and a log of
    /// more than a thousand lines.
    fn analyze_performance_bottlenecks(&mut self, project: &ProjectFiles)
        requires
            old(self).wf(),
        ensures
            final(self).wf(),
            final(self).spec_errors() == old(self).spec_errors() + (if slow_rendering(*project) {
                seq!["CRITICAL PERFORMANCE: 0.2 FPS detected - CPU rendering fallback"@]
            } else {
                seq![]
            }) + (match log_line_count(*project) {
                Some(n) => if n > 1000 {
                    seq!["Excessive logging detected: "@ + nat_text(n) + " lines"@]
                } else {
                    seq![]
                },
                None => seq![],
            }),
            final(self).fps() == if slow_rendering(*project) {
                Some(slow_fps())
            } else {
                old(self).fps()
            },
            final(self).gpu_error() == old(self).gpu_error(),
            final(self).ui_flags() == old(self).ui_flags(),
            final(self).spec_features() == old(self).spec_features(),
            final(self).status_lists() == old(self).status_lists(),
    {
        let ghost e0 = self.spec_errors();
        if has_exec(&project.run_output, "0.2 FPS") || has_exec(&project.run_output, "4-6 seconds") {
            let d = Decimal::new(false, 2, 1);
            let ghost m0 = self.performance_metrics@;
            self.performance_metrics.push((owned("fps"), d));
            assert(self.performance_metrics@.drop_last() =~= m0);
            self.push_error(owned("CRITICAL PERFORMANCE: 0.2 FPS detected - CPU rendering fallback"));
        }
        let ghost e1 = self.spec_errors();
        assert(e1 =~= e0 + (if slow_rendering(*project) {
            seq!["CRITICAL PERFORMANCE: 0.2 FPS detected - CPU rendering fallback"@]
        } else {
            seq![]
        }));
        match &project.run_output {
            Some(t) => {
                let c = chars_of(t.as_str());
                let ls = crate::text::lines_exec(c.as_slice());
                let n = ls.len();
                if n > 1000 {
                    let mut m: Vec<char> = Vec::new();
                    push_str(&mut m, "Excessive logging detected: ");
                    push_nat(&mut m, n as u128);
                    push_str(&mut m, " lines");
                    self.push_error(string_of(m.as_slice()));
                }
            },
            None => {},
        }
    }

    /// Records a GPU placeholder left in the application and a software
    /// renderer left in the editor.
    fn validate_critical_systems(&mut self, project: &ProjectFiles)
        ensures
            final(self).spec_errors() == old(self).spec_errors() + (if has(opt_view(project.bevy_app), "initialize_wgpu_renderer"@)
                && has(opt_view(project.bevy_app), "panic!"@) {
                seq![]
            } else if has(opt_view(project.bevy_app), "WGPU renderer placeholder"@) {
                seq!["CRITICAL: WGPU placeholder still present - initialization not forced"@]
            } else {
                seq![]
            }) + (if has(opt_view(project.editor_ui), "compile_and_render_shader"@) && has(
                opt_view(project.editor_ui),
                "NO SOFTWARE FALLBACK"@,
            ) {
                seq![]
            } else if has(opt_view(project.editor_ui), "SoftwareShaderRenderer"@) {
                seq!["CRITICAL: Software shader renderer still present"@]
            } else {
                seq![]
            }),
            final(self).gpu_error() == old(self).gpu_error(),
            final(self).ui_flags() == old(self).ui_flags(),
            final(self).spec_features() == old(self).spec_features(),
            final(self).status_lists() == old(self).status_lists(),
            final(self).performance_metrics == old(self).performance_metrics,
    {
        let ghost e0 = self.spec_errors();
        if has_exec(&project.bevy_app, "initialize_wgpu_renderer") && has_exec(&project.bevy_app, "panic!") {
        } else if has_exec(&project.bevy_app, "WGPU renderer placeholder") {
            self.push_error(owned("CRITICAL: WGPU placeholder still present - initialization not forced"));
        }
        let ghost e1 = self.spec_errors();
        if has_exec(&project.editor_ui, "compile_and_render_shader") && has_exec(&project.editor_ui, "NO SOFTWARE FALLBACK") {
        } else if has_exec(&project.editor_ui, "SoftwareShaderRenderer") {
            self.push_error(owned("CRITICAL: Software shader renderer still present"));
        }
        assert(self.spec_errors() =~= old(self).spec_errors() + (e1.subrange(e0.len() as int, e1.len() as int)) + self.spec_errors().subrange(e1.len() as int, self.spec_errors().len() as int));
    }
}


/// What the diagnostics find of the interface: context, layout, pipeline, cache.
pub open spec fn diagnosed_flags(old_flags: (bool, bool, bool, usize), p: ProjectFiles) -> (bool, bool, bool, usize) {
    let bevy = opt_view(p.bevy_app);
    let editor = opt_view(p.editor_ui);
    (
        old_flags.0 || (has(bevy, "EguiContext"@) && has(bevy, "egui"@)),
        old_flags.1 || has(editor, "ui.horizontal"@) || has(editor, "ui.vertical"@),
        old_flags.2 || has(editor, "COPY_BYTES_PER_ROW_ALIGNMENT"@),
        if has(editor, "PreviewCache"@) {
            1usize
        } else {
            old_flags.3
        },
    )
}

/// The manifest text of a project; one that cannot be read counts as empty.
pub open spec fn manifest_text(p: ProjectFiles) -> Seq<char> {
    match opt_view(p.cargo_toml) {
        Some(t) => t,
        None => Seq::<char>::empty(),
    }
}

impl UIAnalyzer {
    /// Runs the diagnostics on what is known of a project: the GPU set-up,
    /// the interface, the run log, performance, and the critical systems.
    #[verifier::spinoff_prover]
    #[verifier::rlimit(40)]
    pub fn run_surgical_diagnostics(&mut self, project: &ProjectFiles)
        requires
            old(self).wf(),
        ensures
            final(self).wf(),
            final(self).spec_errors() == old(self).spec_errors() + diagnostic_errors(*project),
            final(self).gpu_error() == match opt_view(project.cargo_check_error) {
                Some(e) => Some(e),
                None => old(self).gpu_error(),
            },
            final(self).ui_flags() == diagnosed_flags(old(self).ui_flags(), *project),
            final(self).fps() == if slow_rendering(*project) {
                Some(slow_fps())
            } else {
                old(self).fps()
            },
            final(self).spec_features() == old(self).spec_features(),
            final(self).status_lists() == old(self).status_lists(),
    {
        self.diagnose_wgpu_state(project);
        self.diagnose_ui_state(project);
        self.check_runtime_errors(project);
        self.analyze_performance_bottlenecks(project);
        self.validate_critical_systems(project);
        assert(self.spec_errors() =~= old(self).spec_errors() + diagnostic_errors(*project));
    }

    /// Marks each required file found among `existing_files` as functional,
    /// the others as missing (under the feature `File: <path>`).
    pub fn check_file_structure(&mut self, existing_files: &Vec<String>)
        requires
            old(self).wf(),
        ensures
            final(self).wf(),
            final(self).spec_features() == table_checks(
                old(self).spec_features(),
                required_files(),
                "File: "@,
                |x: Seq<char>| strings_view(existing_files@).contains(x),
                required_files().len(),
            ),
            final(self).spec_errors() == old(self).spec_errors(),
            final(self).gpu_error() == old(self).gpu_error(),
            final(self).ui_flags() == old(self).ui_flags(),
            final(self).fps() == old(self).fps(),
            final(self).status_lists() == old(self).status_lists(),
    {
        let t = required_file_table();
        let ghost present = |x: Seq<char>| strings_view(existing_files@).contains(x);
        let mut i: usize = 0;
        while i < t.len()
            invariant
                i <= t@.len(),
                pairs_view(t@) == required_files(),
                present == (|x: Seq<char>| strings_view(existing_files@).contains(x)),
                self.wf(),
                self.spec_features() == table_checks(old(self).spec_features(), required_files(), "File: "@, present, i as nat),
                self.spec_errors() == old(self).spec_errors(),
                self.gpu_error() == old(self).gpu_error(),
                self.ui_flags() == old(self).ui_flags(),
                self.fps() == old(self).fps(),
                self.status_lists() == old(self).status_lists(),
            decreases t@.len() - i,
        {
            let (path, description) = t[i];
            assert(required_files()[i as int] == (path@, description@));
            let pc = chars_of(path);
            let mut found = false;
            let mut k: usize = 0;
            while k < existing_files.len()
                invariant
                    k <= existing_files@.len(),
                    pc@ == path@,
                    found <==> exists|j: int| 0 <= j < k && existing_files@[j]@ == path@,
                decreases existing_files@.len() - k,
            {
                let e = chars_of(existing_files[k].as_str());
                if eq_chars(e.as_slice(), pc.as_slice()) {
                    found = true;
                }
                k = k + 1;
            }
            proof {
                if found {
                    let j = choose|j: int| 0 <= j < k && existing_files@[j]@ == path@;
                    assert(strings_view(existing_files@)[j] == path@);
                } else {
                    assert forall|j: int| 0 <= j < strings_view(existing_files@).len() implies strings_view(existing_files@)[j] != path@ by {
                        assert(strings_view(existing_files@)[j] == existing_files@[j]@);
                    }
                }
            }
            assert(found == present(path@));
            let name = joined("File: ", path);
            let status = if found { FeatureStatus::Functional } else { FeatureStatus::Missing };
            self.update_feature_status(name.as_str(), status, one(description));
            i = i + 1;
        }
    }

    /// Marks each required crate named in the manifest text as functional,
    /// the others as missing (under the feature `Dependency: <name>`).
    pub fn check_dependencies(&mut self, cargo_toml: &str)
        requires
            old(self).wf(),
        ensures
            final(self).wf(),
            final(self).spec_features() == table_checks(
                old(self).spec_features(),
                required_dependencies(),
                "Dependency: "@,
                |x: Seq<char>| contains(cargo_toml@, x),
                required_dependencies().len(),
            ),
            final(self).spec_errors() == old(self).spec_errors(),
            final(self).gpu_error() == old(self).gpu_error(),
            final(self).ui_flags() == old(self).ui_flags(),
            final(self).fps() == old(self).fps(),
            final(self).status_lists() == old(self).status_lists(),
    {
        let t = dependency_table();
        let c = chars_of(cargo_toml);
        let ghost present = |x: Seq<char>| contains(cargo_toml@, x);
        let mut i: usize = 0;
        while i < t.len()
            invariant
                i <= t@.len(),
                pairs_view(t@) == required_dependencies(),
                c@ == cargo_toml@,
                present == (|x: Seq<char>| contains(cargo_toml@, x)),
                self.wf(),
                self.spec_features() == table_checks(old(self).spec_features(), required_dependencies(), "Dependency: "@, present, i as nat),
                self.spec_errors() == old(self).spec_errors(),
                self.gpu_error() == old(self).gpu_error(),
                self.ui_flags() == old(self).ui_flags(),
                self.fps() == old(self).fps(),
                self.status_lists() == old(self).status_lists(),
            decreases t@.len() - i,
        {
            let (dep, description) = t[i];
            assert(required_dependencies()[i as int] == (dep@, description@));
            let found = contains_str(c.as_slice(), dep);
            let name = joined("Dependency: ", dep);
            let status = if found { FeatureStatus::Functional } else { FeatureStatus::Missing };
            self.update_feature_status(name.as_str(), status, one(description));
            i = i + 1;
        }
    }

    /// Runs every check on what is known of a project and returns the report
    /// followed by the fix plan. A manifest that cannot be read counts as empty.
    #[verifier::spinoff_prover]
    #[verifier::rlimit(60)]
    pub fn run_comprehensive_analysis(&mut self, project: &ProjectFiles) -> (r: String)
        requires
            old(self).wf(),
        ensures
            final(self).wf(),
            final(self).spec_features() == analyzed(
                table_checks(
                    table_checks(
                        old(self).spec_features(),
                        required_files(),
                        "File: "@,
                        |x: Seq<char>| strings_view(project.existing_files@).contains(x),
                        required_files().len(),
                    ),
                    required_dependencies(),
                    "Dependency: "@,
                    |x: Seq<char>| contains(manifest_text(*project), x),
                    required_dependencies().len(),
                ),
                *project,
            ),
            final(self).spec_errors() == old(self).spec_errors() + diagnostic_errors(*project),
            final(self).ui_flags() == diagnosed_flags(old(self).ui_flags(), *project),
            r@ == report_text(final(self).spec_features(), final(self).status_lists().3.len(), final(self).status_lists().2.len())
                + "\n"@ + plan_text(
                final(self).spec_errors(),
                final(self).gpu_error(),
                final(self).fps(),
                final(self).ui_flags().0,
                final(self).ui_flags().1,
            ),
    {
        self.run_surgical_diagnostics(project);
        self.check_file_structure(&project.existing_files);
        let manifest = match &project.cargo_toml {
            Some(t) => owned(t.as_str()),
            None => String::new(),
        };
        assert(manifest@ == manifest_text(*project));
        assert((|x: Seq<char>| contains(manifest@, x)) =~= (|x: Seq<char>| contains(manifest_text(*project), x)));
        self.check_dependencies(manifest.as_str());
        self.analyze_current_state(project);
        let report = self.generate_comprehensive_report();
        let plan = self.generate_surgical_fix_plan();
        let mut out = chars_of(report.as_str());
        push_str(&mut out, "\n");
        push_str(&mut out, plan.as_str());
        string_of(out.as_slice())
    }
}


/// Each element comes before the next.
pub open spec fn strictly_sorted(c: Seq<Seq<char>>) -> bool {
    forall|i: int, j: int| 0 <= i < j < c.len() ==> seq_less(#[trigger] c[i], #[trigger] c[j])
}

proof fn lemma_insert_sorted(list: Seq<Seq<char>>, x: Seq<char>)
    requires
        strictly_sorted(list),
    ensures
        strictly_sorted(insert_sorted(list, x)),
        forall|y: Seq<char>| #[trigger] insert_sorted(list, x).contains(y) <==> (list.contains(y) || y == x),
    decreases list.len(),
{
    let r = insert_sorted(list, x);
    if list.len() == 0 {
        assert(r[0] == x);
    } else if list[0] == x {
    } else if seq_less(x, list[0]) {
        assert forall|i: int, j: int| 0 <= i < j < r.len() implies seq_less(#[trigger] r[i], #[trigger] r[j]) by {
            if i == 0 {
                if j > 1 {
                    lemma_seq_less_transitive(x, list[0], list[j - 1]);
                }
            } else {
                assert(r[i] == list[i - 1] && r[j] == list[j - 1]);
            }
        }
        assert forall|y: Seq<char>| r.contains(y) <==> (list.contains(y) || y == x) by {
            if list.contains(y) {
                let k = choose|k: int| 0 <= k < list.len() && list[k] == y;
                assert(r[k + 1] == y);
            }
            if y == x {
                assert(r[0] == x);
            }
            if r.contains(y) {
                let k = choose|k: int| 0 <= k < r.len() && r[k] == y;
                if k > 0 {
                    assert(list[k - 1] == y);
                }
            }
        }
    } else {
        let rest = list.drop_first();
        assert(strictly_sorted(rest)) by {
            assert forall|i: int, j: int| 0 <= i < j < rest.len() implies seq_less(#[trigger] rest[i], #[trigger] rest[j]) by {
                assert(rest[i] == list[i + 1] && rest[j] == list[j + 1]);
            }
        }
        lemma_insert_sorted(rest, x);
        let t = insert_sorted(rest, x);
        lemma_seq_less_total(x, list[0]);
        assert forall|i: int, j: int| 0 <= i < j < r.len() implies seq_less(#[trigger] r[i], #[trigger] r[j]) by {
            if i == 0 {
                assert(r[j] == t[j - 1]);
                assert(t.contains(t[j - 1]));
                if rest.contains(t[j - 1]) {
                    let k = choose|k: int| 0 <= k < rest.len() && rest[k] == t[j - 1];
                    assert(list[k + 1] == rest[k]);
                    assert(seq_less(list[0], list[k + 1]));
                }
            } else {
                assert(r[i] == t[i - 1] && r[j] == t[j - 1]);
            }
        }
        assert forall|y: Seq<char>| r.contains(y) <==> (list.contains(y) || y == x) by {
            if list.contains(y) {
                let k = choose|k: int| 0 <= k < list.len() && list[k] == y;
                if k == 0 {
                    assert(r[0] == y);
                } else {
                    assert(rest[k - 1] == y);
                    assert(rest.contains(y));
                    assert(t.contains(y));
                    let m = choose|m: int| 0 <= m < t.len() && t[m] == y;
                    assert(r[m + 1] == y);
                }
            }
            if y == x {
                assert(t.contains(x));
                let m = choose|m: int| 0 <= m < t.len() && t[m] == x;
                assert(r[m + 1] == x);
            }
            if r.contains(y) {
                let k = choose|k: int| 0 <= k < r.len() && r[k] == y;
                if k == 0 {
                    assert(list[0] == y);
                } else {
                    assert(t[k - 1] == y);
                    assert(t.contains(y));
                    if rest.contains(y) {
                        let m = choose|m: int| 0 <= m < rest.len() && rest[m] == y;
                        assert(list[m + 1] == y);
                    }
                }
            }
        }
    }
}

/// The categories of a survey are listed once each, in increasing order,
/// and they are exactly the categories of its features.
pub proof fn lemma_categories_sorted(fs: Seq<FeatureView>)
    ensures
        strictly_sorted(categories(fs)),
        forall|y: Seq<char>| #[trigger] categories(fs).contains(y) <==> exists|i: int| 0 <= i < fs.len() && #[trigger] fs[i].category == y,
{
    lemma_categories_upto(fs, fs.len());
}

proof fn lemma_categories_upto(fs: Seq<FeatureView>, k: nat)
    requires
        k <= fs.len(),
    ensures
        strictly_sorted(categories_upto(fs, k)),
        forall|y: Seq<char>| #[trigger] categories_upto(fs, k).contains(y) <==> exists|i: int| 0 <= i < k && #[trigger] fs[i].category == y,
    decreases k,
{
    if k > 0 {
        lemma_categories_upto(fs, (k - 1) as nat);
        lemma_insert_sorted(categories_upto(fs, (k - 1) as nat), fs[k - 1].category);
        let prev = categories_upto(fs, (k - 1) as nat);
        let x = fs[k - 1].category;
        assert forall|y: Seq<char>| #[trigger] categories_upto(fs, k).contains(y) <==> exists|i: int| 0 <= i < k && #[trigger] fs[i].category == y by {
            assert(categories_upto(fs, k) == insert_sorted(prev, x));
            assert(insert_sorted(prev, x).contains(y) <==> (prev.contains(y) || y == x));
            assert(prev.contains(y) <==> exists|i: int| 0 <= i < k - 1 && #[trigger] fs[i].category == y);
            if exists|i: int| 0 <= i < k && #[trigger] fs[i].category == y {
                let i = choose|i: int| 0 <= i < k && #[trigger] fs[i].category == y;
                if i < k - 1 {
                    assert(exists|i2: int| 0 <= i2 < k - 1 && #[trigger] fs[i2].category == y);
                }
            }
            if y == x {
                assert(fs[k - 1].category == y);
            }
            if prev.contains(y) {
                let i = choose|i: int| 0 <= i < k - 1 && #[trigger] fs[i].category == y;
                assert(0 <= i < k && fs[i].category == y);
            }
        }
    }
}

/// The comprehensive report, whatever the features, is not empty, states
/// how many features are required, and carries the critical-issues and the
/// implementation-roadmap headings, the roadmap closing the report.
#[verifier::spinoff_prover]
#[verifier::rlimit(100)]
pub proof fn lemma_report_headings(fs: Seq<FeatureView>, functional: nat, partial: nat)
    ensures
        report_text(fs, functional, partial).len() > 0,
        contains(report_text(fs, functional, partial), "- **Total Features Required**: "@ + nat_text(fs.len()) + "\n"@),
        contains(report_text(fs, functional, partial), "## CRITICAL ISSUES - IMMEDIATE ACTION REQUIRED"@),
        contains(report_text(fs, functional, partial), "## IMPLEMENTATION ROADMAP"@),
        report_text(fs, functional, partial).subrange(
            report_text(fs, functional, partial).len() - REPORT_TAIL@.len(),
            report_text(fs, functional, partial).len() as int,
        ) == REPORT_TAIL@,
{
    let r = report_text(fs, functional, partial);
    let total = "- **Total Features Required**: "@ + nat_text(fs.len()) + "\n"@;
    let h = REPORT_HEAD@.len() as int;
    assert(r.subrange(h, h + total.len()) =~= total);
    assert(occurs_at(r, total, h));
    let critical = "## CRITICAL ISSUES - IMMEDIATE ACTION REQUIRED"@;
    reveal_strlit("## CRITICAL ISSUES - IMMEDIATE ACTION REQUIRED");
    reveal_strlit("\n## CRITICAL ISSUES - IMMEDIATE ACTION REQUIRED\n\n");
    let cm = select(fs, FeatureStatus::Missing, Priority::Critical);
    let hm = select(fs, FeatureStatus::Missing, Priority::High);
    let cb = select(fs, FeatureStatus::Broken, Priority::Critical);
    let before = REPORT_HEAD@ + "- **Total Features Required**: "@ + nat_text(fs.len()) + "\n"@ + "- **Critical Missing**: "@
        + nat_text(cm.len()) + "\n"@ + "- **High Priority Missing**: "@ + nat_text(hm.len()) + "\n"@
        + "- **Critical Broken**: "@ + nat_text(cb.len()) + "\n"@ + "- **Functional Features**: "@
        + nat_text(functional) + "\n"@ + "- **Partial Features**: "@ + nat_text(partial) + "\n"@;
    let c: int = before.len() as int + 1;
    assert(r.subrange(c, c + critical.len()) =~= critical);
    assert(occurs_at(r, critical, c));
    reveal_strlit("## IMPLEMENTATION ROADMAP");
    let roadmap = "## IMPLEMENTATION ROADMAP"@;
    let t: int = r.len() - REPORT_TAIL@.len();
    let g: int = t - roadmap.len();
    assert(r.subrange(t, r.len() as int) =~= REPORT_TAIL@);
    assert(r.subrange(g, t) =~= roadmap);
    assert(occurs_at(r, roadmap, g));
}

/// Every feature has exactly one status: the missing, broken, partial and
/// functional name lists together are as long as the feature list.
pub proof fn lemma_status_lists_partition(fs: Seq<FeatureView>)
    ensures
        names_with(fs, FeatureStatus::Missing).len() + names_with(fs, FeatureStatus::Broken).len() + names_with(
            fs,
            FeatureStatus::Partial,
        ).len() + names_with(fs, FeatureStatus::Functional).len() == fs.len(),
    decreases fs.len(),
{
    if fs.len() > 0 {
        lemma_status_lists_partition(fs.drop_last());
    }
}

proof fn lemma_first_named_in_range(fs: Seq<FeatureView>, name: Seq<char>)
    ensures
        first_named(fs, name) matches Some(i) ==> 0 <= i < fs.len() && fs[i].name == name,
    decreases fs.len(),
{
    if fs.len() > 0 {
        lemma_first_named_in_range(fs.drop_last(), name);
    }
}

/// An analysis of the project changes statuses and details only: the
/// features keep their number, names, order, priorities and categories.
pub proof fn lemma_analysis_keeps_features(fs: Seq<FeatureView>, p: ProjectFiles)
    ensures
        analyzed(fs, p).len() == fs.len(),
        forall|i: int| 0 <= i < fs.len() ==> (#[trigger] analyzed(fs, p)[i]).name == fs[i].name
            && analyzed(fs, p)[i].priority == fs[i].priority && analyzed(fs, p)[i].category == fs[i].category,
{
    assert forall|f: Seq<FeatureView>, n: Seq<char>, st: FeatureStatus, d: Seq<Seq<char>>|
        #![trigger with_update(f, n, st, d)]
        with_update(f, n, st, d).len() == f.len() && forall|i: int| 0 <= i < f.len() ==> with_update(f, n, st, d)[i].name
            == f[i].name && with_update(f, n, st, d)[i].priority == f[i].priority && with_update(f, n, st, d)[i].category
            == f[i].category by {
        lemma_first_named_in_range(f, n);
    }
}

proof fn lemma_first_named_same_names(a: Seq<FeatureView>, b: Seq<FeatureView>, name: Seq<char>)
    requires
        a.len() == b.len(),
        forall|i: int| 0 <= i < a.len() ==> (#[trigger] a[i]).name == b[i].name,
    ensures
        first_named(a, name) == first_named(b, name),
    decreases a.len(),
{
    if a.len() > 0 {
        lemma_first_named_same_names(a.drop_last(), b.drop_last(), name);
    }
}

proof fn lemma_select_nonempty(fs: Seq<FeatureView>, status: FeatureStatus, priority: Priority, j: int)
    requires
        0 <= j < fs.len(),
        fs[j].status == status,
        fs[j].priority == priority,
    ensures
        select(fs, status, priority).len() > 0,
    decreases fs.len(),
{
    if j < fs.len() - 1 {
        lemma_select_nonempty(fs.drop_last(), status, priority, j);
    }
}

/// Without the application source an analysis finds shader compilation
/// missing: when the first feature named "Shader Compilation" is critical,
/// the missing critical features afterwards are not empty.
pub proof fn lemma_no_app_means_missing_compilation(fs: Seq<FeatureView>, p: ProjectFiles)
    requires
        p.bevy_app is None,
        first_named(fs, "Shader Compilation"@) matches Some(i) && fs[i].priority == Priority::Critical,
    ensures
        select(analyzed(fs, p), FeatureStatus::Missing, Priority::Critical).len() > 0,
{
    let name = "Shader Compilation"@;
    assert forall|f: Seq<FeatureView>, n: Seq<char>, st: FeatureStatus, d: Seq<Seq<char>>|
        #![trigger with_update(f, n, st, d)]
        with_update(f, n, st, d).len() == f.len() && (forall|i: int| 0 <= i < f.len() ==> with_update(f, n, st, d)[i].name
            == f[i].name && with_update(f, n, st, d)[i].priority == f[i].priority) && first_named(
            with_update(f, n, st, d),
            name,
        ) == first_named(f, name) && (first_named(f, n) matches Some(k) ==> with_update(f, n, st, d)[k].status
            == st) by {
        lemma_first_named_in_range(f, n);
        lemma_first_named_same_names(with_update(f, n, st, d), f, name);
    }
    lemma_analysis_keeps_features(fs, p);
    let a = analyzed(fs, p);
    let i = first_named(fs, name)->0;
    lemma_first_named_in_range(fs, name);
    assert(a[i].status == FeatureStatus::Missing);
    lemma_select_nonempty(a, FeatureStatus::Missing, Priority::Critical, i);
}

} // verus!
