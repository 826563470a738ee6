use shader_studio::superinstance::conservation_integration::{
    BudgetTracker, CompileOperation, ConservationEnforcer, OperationDecision,
};

fn usd(nanos: u64) -> f64 {
    nanos as f64 / 1e9
}

#[test]
fn test_budget_tracker_default() {
    let tracker = BudgetTracker::new();
    let s = tracker.budget_summary();
    assert_eq!(usd(s.daily_budget), 0.10);
    assert_eq!(usd(s.crystallized_budget), 0.08);
    assert_eq!(usd(s.live_budget), 0.02);
}

#[test]
fn test_custom_budget() {
    let tracker = BudgetTracker::with_budget(500_000_000, 90);
    let s = tracker.budget_summary();
    assert_eq!(usd(s.crystallized_budget), 0.45);
    assert_eq!(usd(s.live_budget), 0.05);
}

#[test]
fn test_always_free_operations() {
    let tracker = BudgetTracker::new();
    assert!(tracker.can_compile(&CompileOperation::WgslParse));
    assert!(tracker.can_compile(&CompileOperation::SpirvGenerate));
}

#[test]
fn test_budget_exceeded() {
    let mut tracker = BudgetTracker::with_budget(1_000_000, 100);
    for _ in 0..10 {
        tracker.record_compilation(CompileOperation::IsfConvert, true);
    }
    assert!(!tracker.can_compile(&CompileOperation::IsfConvert));
}

#[test]
fn test_record_compilation() {
    let mut tracker = BudgetTracker::new();
    let entry = tracker.record_compilation(CompileOperation::WgslParse, true);
    assert!(entry.allowed);
    assert_eq!(usd(entry.gamma_used), 0.0001);
    assert_eq!(usd(entry.eta_used), 0.0);
}

#[test]
fn test_crystallize_pattern() {
    let mut tracker = BudgetTracker::new();
    let cost = tracker.crystallize_pattern(&CompileOperation::IsfConvert);
    assert!(cost > 0);
    assert_eq!(tracker.operation_log().len(), 1);
}

#[test]
fn test_budget_summary() {
    let mut tracker = BudgetTracker::new();
    tracker.record_compilation(CompileOperation::WgslParse, true);
    let summary = tracker.budget_summary();
    assert!(summary.consumed > 0);
    assert!(summary.remaining < summary.daily_budget as i128);
    assert_eq!(summary.total_operations, 1);
}

#[test]
fn test_conservation_enforcer() {
    let mut enforcer = ConservationEnforcer::new(100_000_000);

    let decision = enforcer.evaluate(CompileOperation::WgslParse);
    match decision {
        OperationDecision::Crystallized { .. } => {}
        _ => panic!("WGSL parse should be crystallized"),
    }

    let decision = enforcer.evaluate(CompileOperation::IsfConvert);
    assert!(decision.is_allowed());

    let decision = enforcer.evaluate(CompileOperation::LlmOptimize);
    assert!(decision.is_allowed());
}

#[test]
fn test_enforcer_budget_exceeded() {
    let mut enforcer = ConservationEnforcer::new(1_000_000);
    enforcer.set_gamma_threshold(0);

    for _ in 0..10 {
        enforcer.evaluate(CompileOperation::LlmOptimize);
    }

    let decision = enforcer.evaluate(CompileOperation::LlmOptimize);
    match decision {
        OperationDecision::Denied { .. } => {}
        _ => panic!("Should be denied after budget exceeded"),
    }
}

#[test]
fn test_mark_crystallized() {
    let mut enforcer = ConservationEnforcer::new(100_000_000);
    enforcer.mark_crystallized(CompileOperation::IsfConvert);

    let decision = enforcer.evaluate(CompileOperation::IsfConvert);
    match decision {
        OperationDecision::Crystallized { .. } => {}
        _ => panic!("Should use crystallized path after marking"),
    }
}

#[test]
fn test_operation_cost_table() {
    assert_eq!(usd(CompileOperation::WgslParse.gamma_cost()), 0.0001);
    assert_eq!(usd(CompileOperation::WgslParse.eta_cost()), 0.0);

    assert_eq!(usd(CompileOperation::LlmOptimize.eta_cost()), 0.05);
    assert!(CompileOperation::LlmOptimize.gamma_cost() < CompileOperation::LlmOptimize.eta_cost());
}

#[test]
fn test_reset_daily_budget() {
    let mut tracker = BudgetTracker::new();
    tracker.record_compilation(CompileOperation::IsfConvert, true);
    assert!(tracker.budget_summary().consumed > 0);

    tracker.reset_daily_budget();
    let s = tracker.budget_summary();
    assert_eq!(s.consumed, 0);
    assert_eq!(s.gamma_consumed, 0);
    assert_eq!(s.eta_consumed, 0);
}

#[test]
fn live_path_charges_eta_and_denial_keeps_budget() {
    let mut tracker = BudgetTracker::with_budget(100_000_000, 0);
    let e = tracker.record_compilation(CompileOperation::GlslTranspile, false);
    assert!(e.allowed);
    assert_eq!(e.eta_used, 20_000_000);
    assert_eq!(e.total_cost, 20_000_000);
    let s = tracker.budget_summary();
    assert_eq!(s.eta_consumed, 20_000_000);
    assert_eq!(s.remaining, 80_000_000);
    assert_eq!(s.gamma_remaining, 0);

    let mut tiny = BudgetTracker::with_budget(0, 50);
    let d = tiny.record_compilation(CompileOperation::ErrorFix, false);
    assert!(!d.allowed);
    assert_eq!(tiny.budget_summary().consumed, 0);
    assert_eq!(tiny.operation_log().len(), 1);
}

#[test]
fn denied_decision_reports_remaining_budget() {
    let mut enforcer = ConservationEnforcer::new(0);
    let d = enforcer.evaluate(CompileOperation::ErrorFix);
    assert!(!d.is_allowed());
    assert_eq!(d.cost(), 0);
    match d {
        OperationDecision::Denied { budget_remaining, .. } => assert_eq!(budget_remaining, 0),
        _ => panic!("a zero budget denies paid operations"),
    }
    let free = enforcer.evaluate(CompileOperation::SpirvGenerate);
    assert!(free.is_allowed());
}
