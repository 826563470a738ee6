use shader_studio::ui_analyzer::{required_file_paths, FeatureStatus, Priority, ProjectFiles, UIAnalyzer};

fn empty_project() -> ProjectFiles {
    ProjectFiles {
        shader_renderer_exists: false,
        bevy_app: None,
        editor_ui: None,
        cargo_toml: None,
        cargo_output_log: None,
        run_output: None,
        cargo_check_error: None,
        existing_files: vec![],
    }
}

#[test]
fn test_ui_analyzer_creation() {
    let analyzer = UIAnalyzer::new();
    assert!(analyzer.get_total_features() != 0);
    assert!(analyzer.get_total_features() > 20);
}

#[test]
fn test_critical_feature_detection() {
    let mut analyzer = UIAnalyzer::new();
    analyzer.analyze_current_state(&empty_project());
    let critical_missing = analyzer.get_missing_critical_features();
    assert!(!critical_missing.is_empty());
}

#[test]
fn test_report_generation() {
    let mut analyzer = UIAnalyzer::new();
    analyzer.analyze_current_state(&empty_project());
    let report = analyzer.generate_comprehensive_report();
    assert!(!report.is_empty());
    assert!(report.contains("CRITICAL ISSUES"));
    assert!(report.contains("IMPLEMENTATION ROADMAP"));
}

#[test]
fn a_new_survey_lists_twenty_seven_features() {
    let a = UIAnalyzer::new();
    assert_eq!(a.get_total_features(), 27);
    assert_eq!(a.get_functional_features_count(), 0);
    assert_eq!(a.get_partial_features_count(), 0);
    let critical: Vec<String> = a.get_missing_critical_features().iter().map(|f| f.name.clone()).collect();
    assert_eq!(
        critical,
        vec!["WGPU Integration", "Live Shader Preview", "Shader Browser Panel", "Parameter Panel", "Shader Compilation"]
    );
    let broken: Vec<String> = a.get_broken_critical_features().iter().map(|f| f.name.clone()).collect();
    assert_eq!(broken, vec!["Three-Panel Layout"]);
    assert!(a.get_missing_critical_features().iter().all(|f| f.priority == Priority::Critical));
}

#[test]
fn analysis_sets_statuses_from_the_project_files() {
    let mut a = UIAnalyzer::new();
    let mut p = empty_project();
    p.shader_renderer_exists = true;
    p.editor_ui = Some(
        "Live shader preview CentralPanel shader_browser_panel parameter_panel code_editor_panel Available shaders: Interactive shader parameters Slider".to_string(),
    );
    p.bevy_app = Some("✅ Compiled".to_string());
    a.analyze_current_state(&p);
    assert_eq!(a.get_functional_features_count(), 6);
    assert!(a.get_missing_critical_features().is_empty());
    assert!(a.get_broken_critical_features().is_empty());
    let report = a.generate_comprehensive_report();
    assert!(report.starts_with("# WGSL Shader Studio - COMPREHENSIVE UI ANALYSIS REPORT\n\n## Executive Summary\n\n- **Total Features Required**: 27\n- **Critical Missing**: 0\n"));
    assert!(report.contains("- **Functional Features**: 6\n"));
    assert!(!report.contains("### 🚨 CRITICAL MISSING FEATURES"));
}

#[test]
fn a_partial_layout_is_reported_as_partial() {
    let mut a = UIAnalyzer::new();
    let mut p = empty_project();
    p.bevy_app = Some("shader_browser_panel parameter_panel code_editor_panel CentralPanel".to_string());
    a.analyze_current_state(&p);
    assert_eq!(a.get_partial_features_count(), 3);
    assert_eq!(a.get_functional_features_count(), 2);
}

#[test]
fn updating_an_unknown_feature_changes_nothing() {
    let mut a = UIAnalyzer::new();
    a.update_feature_status("No Such Feature", FeatureStatus::Functional, vec!["x".to_string()]);
    a.check_file_structure(&required_file_paths());
    a.check_dependencies("bevy wgpu");
    a.analyze_current_state(&empty_project());
    assert_eq!(a.get_functional_features_count(), 0);
    a.update_feature_status("Menu System", FeatureStatus::Functional, vec!["done".to_string()]);
    a.analyze_current_state(&empty_project());
    assert_eq!(a.get_functional_features_count(), 1);
}

#[test]
fn the_report_groups_features_by_category_in_order() {
    let a = UIAnalyzer::new();
    let report = a.generate_comprehensive_report();
    let audio = report.find("### Audio/MIDI\n- **Total**: 2 features\n- **Missing**: 2\n").unwrap();
    let core = report.find("### Core Rendering\n- **Total**: 3 features\n").unwrap();
    let ui = report.find("### UI Layout\n- **Total**: 4 features\n- **Missing**: 2\n- **Broken**: 1\n- **Partial**: 1\n").unwrap();
    assert!(audio < core && core < ui);
    assert!(report.contains("#### WGPU Integration\n- **Category**: Core Rendering\n"));
    assert!(report.ends_with("6-8 weeks for full feature parity.\n"));
}

#[test]
fn diagnostics_find_problems_and_plan_fixes() {
    let mut a = UIAnalyzer::new();
    let mut p = empty_project();
    p.cargo_check_error = Some("boom".to_string());
    p.run_output = Some("panicked at x\n0.2 FPS\n".to_string());
    p.bevy_app = Some("WGPU renderer placeholder".to_string());
    a.run_surgical_diagnostics(&p);
    let plan = a.generate_surgical_fix_plan();
    assert!(plan.starts_with("# SURGICAL FIX PLAN - CRITICAL UI ISSUES\n\n## IMMEDIATE LIFE-THREATENING ISSUES\n\n### 🚨 CRITICAL RUNTIME ERRORS\n\n- **CRITICAL PERFORMANCE: 0.2 FPS detected - CPU rendering fallback**\n- **CRITICAL: WGPU placeholder still present - initialization not forced**\n\n"));
    assert!(plan.contains("### 💥 WGPU INITIALIZATION FAILURE\n\nError: boom\n\n"));
    assert!(plan.contains("Current FPS: 0.2 (UNUSABLE)\n"));
    assert!(plan.contains("### 🖥️ UI CONTEXT FAILURE"));
    assert!(plan.contains("### 📐 PANEL LAYOUT BROKEN"));
}

#[test]
fn a_healthy_interface_needs_no_interface_fixes() {
    let mut a = UIAnalyzer::new();
    let mut p = empty_project();
    p.bevy_app = Some("EguiContext egui".to_string());
    p.editor_ui = Some("ui.horizontal PreviewCache".to_string());
    a.run_surgical_diagnostics(&p);
    let plan = a.generate_surgical_fix_plan();
    assert!(!plan.contains("UI CONTEXT FAILURE"));
    assert!(!plan.contains("PANEL LAYOUT BROKEN"));
    assert!(!plan.contains("CRITICAL RUNTIME ERRORS"));
    let full = a.run_comprehensive_analysis(&p);
    assert!(full.contains("## IMPLEMENTATION ROADMAP"));
    assert!(full.contains("\n# SURGICAL FIX PLAN"));
}
