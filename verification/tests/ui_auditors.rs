use shader_studio::simple_ui_auditor::{PointerSnapshot, SimpleUiAuditor};
use shader_studio::ui_auditor::{
    same_audit, ui_audit_system, AuditAction, PanelAudit, PanelAuditor, UiAuditCollector, UiAuditState,
};
use shader_studio::ui_auditor_minimal::{EditorPanels, MinimalUiAuditor};

#[test]
fn minimal_auditor_splits_panels() {
    let mut a = MinimalUiAuditor::new();
    assert!(a.enabled);
    a.record_panel("Menu Bar", true);
    a.record_panel("Timeline", false);
    a.record_panel("Code Editor", true);
    assert_eq!(a.panels_found, vec!["Menu Bar", "Timeline", "Code Editor"]);
    assert_eq!(a.working_panels, vec!["Menu Bar", "Code Editor"]);
    assert_eq!(a.placeholder_panels, vec!["Timeline"]);
    assert_eq!(
        a.report_text(),
        "\n==========  UI AUDIT REPORT (F12)  ==========\nTotal panels found: 3\nWorking panels: 2  |  Placeholder panels: 1\n\n✅ WORKING PANELS:\n   - Menu Bar\n   - Code Editor\n\n❌ PLACEHOLDER PANELS:\n   - Timeline\n===============================================\n\n"
    );
    a.clear();
    assert!(a.panels_found.is_empty() && a.working_panels.is_empty() && a.placeholder_panels.is_empty());
    assert_eq!(
        a.report_text(),
        "\n==========  UI AUDIT REPORT (F12)  ==========\nTotal panels found: 0\nWorking panels: 0  |  Placeholder panels: 0\n\n===============================================\n\n"
    );
}

#[test]
fn minimal_audit_of_the_editor() {
    let mut a = MinimalUiAuditor::new();
    a.record_panel("Stale", true);
    let panels = EditorPanels {
        show_shader_browser: true,
        has_shaders: false,
        show_parameter_panel: true,
        has_selected_shader: true,
        has_shader_parameters: true,
        show_code_editor: false,
        has_code: true,
        show_preview: true,
        show_node_studio: false,
        show_timeline: true,
        show_audio_panel: false,
    };
    a.ui_audit_system(&panels);
    assert_eq!(a.panels_found, vec!["Menu Bar", "Shader Browser", "Parameter Panel", "Preview Panel", "Timeline"]);
    assert_eq!(a.working_panels, vec!["Menu Bar", "Parameter Panel"]);
    assert_eq!(a.placeholder_panels, vec!["Shader Browser", "Preview Panel", "Timeline"]);
}

#[test]
fn panel_auditor_writes_into_the_report() {
    let mut audit = PanelAudit::new("Parameters");
    {
        let mut helper = PanelAuditor::new(&mut audit);
        helper.real_widget();
        helper.real_widget();
        helper.placeholder("slider missing");
    }
    assert!(audit.has_real_widgets);
    assert_eq!(audit.widget_count, 2);
    assert_eq!(audit.placeholder_indicators, vec!["slider missing"]);
}

#[test]
fn collector_keeps_each_report_once_and_reports() {
    let mut c = UiAuditCollector::default();
    let mut working = PanelAudit::new("Browser");
    working.mark_real();
    working.widget_count = 4;
    let mut stub = PanelAudit::new("Timeline");
    stub.add_placeholder("coming soon");
    stub.add_placeholder("no tracks");
    assert!(same_audit(&stub, &stub.clone()));
    assert!(!same_audit(&stub, &working));
    c.record_panel(working.clone());
    c.record_panel(stub.clone());
    c.record_panel(working.clone());
    assert_eq!(
        c.report_text(),
        "\n==========  UI AUDIT REPORT (F12)  ==========\nTotal panels scanned: 2\nWorking panels: 1  |  Placeholder panels: 1\n\n✅ WORKING PANELS (have real widgets):\n   - Browser  (4 widgets)\n\n❌ PLACEHOLDER PANELS (only stub UI):\n   - Timeline  hints: [\"coming soon\", \"no tracks\"]\n===============================================\n\n"
    );
    c.clear();
    assert!(c.report_text().contains("Total panels scanned: 0"));
}

#[test]
fn f12_asks_for_a_report() {
    let mut state = UiAuditState::default();
    assert_eq!(ui_audit_system(&mut state, false), AuditAction::Idle);
    assert_eq!(ui_audit_system(&mut state, true), AuditAction::AskToEnable);
    assert!(!state.trigger_this_frame);
    state.enabled = true;
    assert_eq!(ui_audit_system(&mut state, true), AuditAction::PrintReport);
    state.trigger_this_frame = true;
    assert_eq!(ui_audit_system(&mut state, false), AuditAction::PrintReport);
    assert_eq!(ui_audit_system(&mut state, false), AuditAction::Idle);
}

#[test]
fn simple_auditor_records_panels_and_reasons() {
    let mut a = SimpleUiAuditor::new();
    a.record_panel("Preview", false, Some("no renderer".to_string()));
    a.record_panel("Preview", false, Some("no renderer".to_string()));
    a.record_panel("Preview", true, Some("slow".to_string()));
    a.record_panel("Browser", true, None);
    assert_eq!(a.panels_found.len(), 2);
    assert_eq!(a.panels_found[0].0, "Preview");
    assert!(a.panels_found[0].1.has_real_content);
    assert_eq!(a.panels_found[0].1.placeholder_reasons, vec!["no renderer".to_string(), "slow".to_string()]);
    assert_eq!(a.panels_found[1].0, "Browser");
    assert!(a.panels_found[1].1.placeholder_reasons.is_empty());
    a.clear();
    assert!(a.panels_found.is_empty());
}

#[test]
fn simple_auditor_log_keeps_the_last_twenty() {
    let mut a = SimpleUiAuditor::new();
    for k in 0..25u64 {
        a.log_event(format!("event {}", k), 1_700_000_000 + k);
    }
    assert_eq!(a.events.len(), 20);
    assert_eq!(a.events[0], "[5] event 5");
    assert_eq!(a.events[19], "[24] event 24");
}

#[test]
fn simple_auditor_counts_clicks() {
    let mut a = SimpleUiAuditor::new();
    let pointer = PointerSnapshot {
        any_down: true,
        primary_clicked: true,
        interact_pos: "Some([10.0 20.0])".to_string(),
        secondary_clicked: true,
    };
    a.update_input_stats(&pointer, 12345);
    assert!(a.input_stats.any_button_hovered);
    assert!(a.input_stats.any_button_clicked);
    assert_eq!(a.input_stats.interactions, 1);
    assert_eq!(
        a.events,
        vec![
            "[2345] Global Input: Left Click at Some([10.0 20.0])".to_string(),
            "[2345] Global Input: Right Click".to_string(),
        ]
    );
    let idle = PointerSnapshot { any_down: false, primary_clicked: false, interact_pos: String::new(), secondary_clicked: false };
    a.update_input_stats(&idle, 12346);
    assert!(!a.input_stats.any_button_hovered);
    assert_eq!(a.input_stats.interactions, 1);
    assert_eq!(a.events.len(), 2);
    let report = a.build_report(99);
    assert_eq!(report.timestamp, 99);
    assert_eq!(report.panel_count, 0);
    assert_eq!(report.events.len(), 2);
}
