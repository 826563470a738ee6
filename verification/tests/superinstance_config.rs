use shader_studio::superinstance::{parse_superinstance_args, CompilationResult, SuperInstanceConfig};

fn usd(nanos: u64) -> f64 {
    nanos as f64 / 1e9
}

#[test]
fn test_default_config() {
    let config = SuperInstanceConfig::default();
    assert!(!config.flux_enabled);
    assert!(!config.plato_enabled);
    assert!(!config.conservation_enabled);
    assert_eq!(usd(config.daily_budget), 0.10);
    assert_eq!(config.crystallized_percent as f64 / 100.0, 0.8);
}

#[test]
fn test_parse_args_flux() {
    let args = vec!["program".to_string(), "--flux-compile".to_string(), "shader.wgsl".to_string()];
    let config = parse_superinstance_args(&args[1..]);
    assert!(config.flux_enabled);
    assert!(!config.plato_enabled);
}

#[test]
fn test_parse_args_budget() {
    let args = vec![
        "program".to_string(),
        "--budget-track".to_string(),
        "--budget-daily".to_string(),
        "0.50".to_string(),
    ];
    let config = parse_superinstance_args(&args[1..]);
    assert!(config.conservation_enabled);
    assert_eq!(usd(config.daily_budget), 0.50);
}

#[test]
fn test_parse_args_plato() {
    let args = vec![
        "program".to_string(),
        "--plato-room".to_string(),
        "test_room".to_string(),
        "--plato-port".to_string(),
        "9000".to_string(),
    ];
    let config = parse_superinstance_args(&args[1..]);
    assert!(config.plato_enabled);
    assert_eq!(config.plato_room, "test_room");
    assert_eq!(config.plato_port, 9000);
}

#[test]
fn test_compilation_result_crystallized() {
    let result = CompilationResult::Crystallized { bytecode: vec![0, 1, 2], cost: 100_000, duration_ms: 10 };
    assert!(result.is_allowed());
    assert_eq!(usd(result.cost()), 0.0001);
}

#[test]
fn test_compilation_result_budget_exceeded() {
    let result = CompilationResult::BudgetExceeded { available: 50_000_000, required: 100_000_000 };
    assert!(!result.is_allowed());
    assert_eq!(result.cost(), 0);
}

#[test]
fn unreadable_values_leave_settings_unchanged() {
    let args: Vec<String> = ["--budget-daily", "abc", "--plato-port", "70000", "--plato-port"]
        .iter()
        .map(|s| s.to_string())
        .collect();
    let config = parse_superinstance_args(&args);
    assert_eq!(config.daily_budget, 100_000_000);
    assert_eq!(config.plato_port, 8847);
    let args: Vec<String> = ["--budget-daily", "+2", "--plato-port", "+80", "--budget-daily", "1.0000000001"]
        .iter()
        .map(|s| s.to_string())
        .collect();
    let config = parse_superinstance_args(&args);
    assert_eq!(config.daily_budget, 2_000_000_000);
    assert_eq!(config.plato_port, 80);
    let args: Vec<String> = [".25", "--budget-daily", ".25"].iter().map(|s| s.to_string()).collect();
    assert_eq!(parse_superinstance_args(&args).daily_budget, 250_000_000);
}
