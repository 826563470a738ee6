use shader_studio::superinstance::plato_integration::{AlarmSeverity, PlatoAgent, PlatoRoom, SensorValue};

fn micro(x: f64) -> i64 {
    (x * 1e6).round() as i64
}

#[test]
fn test_room_creation() {
    let room = PlatoRoom::new("test_room");
    assert_eq!(room.name, "test_room");
    assert!(room.sensors.is_empty());
}

#[test]
fn test_shader_compiler_room() {
    let room = PlatoRoom::shader_compiler_room();
    assert_eq!(room.name, "shader_compiler");
    assert!(room.get_sensor("budget_remaining").is_some());
    assert!(room.get_sensor("compile_count").is_some());
    assert!(room.get_sensor("error_rate").is_some());
}

#[test]
fn test_set_sensor() {
    let mut room = PlatoRoom::new("test");
    let updated = room.set_sensor("temp", SensorValue::Float(micro(42.0)));
    assert!(updated);
    assert_eq!(room.history.len(), 1);
}

#[test]
fn test_deadband_filtering() {
    let mut room = PlatoRoom::new("test");
    room.set_sensor("temp", SensorValue::Float(micro(42.0)));
    let updated = room.set_sensor("temp", SensorValue::Float(micro(42.005)));
    assert!(!updated);
    assert_eq!(room.history.len(), 1);
    let updated = room.set_sensor("temp", SensorValue::Float(micro(43.0)));
    assert!(updated);
    assert_eq!(room.history.len(), 2);
}

#[test]
fn test_trigger_and_clear_alarm() {
    let mut room = PlatoRoom::new("test");
    room.trigger_alarm("budget_exceeded", AlarmSeverity::Critical, "Budget exceeded".to_string());
    assert_eq!(room.active_alarms().len(), 1);

    room.clear_alarm("budget_exceeded");
    assert_eq!(room.active_alarms().len(), 0);
}

#[test]
fn test_room_context() {
    let mut room = PlatoRoom::shader_compiler_room();
    room.set_sensor("budget_remaining", SensorValue::Float(micro(0.05)));
    room.set_sensor("compile_count", SensorValue::Int(10));

    let context = room.get_context();
    assert_eq!(context.budget_remaining as f64 / 1e6, 0.05);
    assert_eq!(context.compile_count, 10);
}

#[test]
fn test_agent_creation() {
    let agent = PlatoAgent::shader_compiler_agent("compiler-1");
    assert_eq!(agent.name, "compiler-1");
    assert_eq!(agent.room.name, "shader_compiler");
}

#[test]
fn test_agent_task_execution() {
    let mut agent = PlatoAgent::shader_compiler_agent("test-agent");
    agent.execute_task("wgsl_compile", true, 50);
    agent.execute_task("wgsl_compile", false, 100);

    assert_eq!(agent.task_history.len(), 2);
    let summary = agent.performance_summary();
    assert_eq!(summary.total_tasks, 2);
    assert_eq!(summary.avg_duration_ms, 75);
    assert!((summary.success_rate as f64 / 1e6 - 0.5).abs() < 0.01);
}

#[test]
fn test_agent_error_tracking() {
    let mut agent = PlatoAgent::shader_compiler_agent("error-test");
    agent.execute_task("compile", false, 100);
    let error_rate = match agent.room.get_sensor("error_rate") {
        Some(SensorValue::Float(v)) => *v as f64 / 1e6,
        _ => 0.0,
    };
    assert!((error_rate - 1.0).abs() < 0.01);
}

#[test]
fn failed_task_raises_alarm_and_counts() {
    let mut agent = PlatoAgent::shader_compiler_agent("a");
    agent.execute_task("compile", false, 7);
    assert_eq!(agent.room.alarms.len(), 1);
    assert_eq!(agent.room.alarms[0].name, "compile_failed");
    let active = agent.room.active_alarms();
    assert_eq!(active.len(), 1);
    assert_eq!(active[0].name, "compile_failed");
    assert_eq!(agent.room.alarms[0].message, "Task 'compile' failed after 7ms");
    assert_eq!(agent.room.alarms[0].severity, AlarmSeverity::Warning);
    assert!(matches!(agent.room.get_sensor("compile_count"), Some(SensorValue::Int(1))));
    agent.execute_task("compile", true, 1);
    agent.execute_task("compile", true, 1);
    assert!(matches!(agent.room.get_sensor("error_rate"), Some(SensorValue::Float(333_333))));
    assert!(matches!(agent.room.get_sensor("compile_count"), Some(SensorValue::Int(3))));
    let empty = PlatoAgent::shader_compiler_agent("b").performance_summary();
    assert_eq!(empty.success_rate, 1_000_000);
    assert_eq!(empty.avg_duration_ms, 0);
}

#[test]
fn history_keeps_the_last_thousand_readings() {
    let mut room = PlatoRoom::new("h");
    for i in 0..1005 {
        room.set_sensor("n", SensorValue::Int(i));
    }
    assert_eq!(room.history.len(), 1000);
    assert!(matches!(room.history[0].value, SensorValue::Int(5)));
    assert!(!room.set_sensor("n", SensorValue::Int(1004)));
    room.set_deadband_threshold(0);
    assert!(room.set_sensor("f", SensorValue::Float(1)));
    assert!(room.set_sensor("f", SensorValue::Float(2)));
    assert!(room.set_sensor("f", SensorValue::Bool(true)));
}

#[test]
fn active_alarms_keep_their_order() {
    let mut room = PlatoRoom::new("order");
    room.trigger_alarm("first", AlarmSeverity::Warning, "one".to_string());
    room.trigger_alarm("second", AlarmSeverity::Critical, "two".to_string());
    room.trigger_alarm("third", AlarmSeverity::Info, "three".to_string());
    room.clear_alarm("second");
    let names: Vec<String> = room.active_alarms().iter().map(|a| a.name.clone()).collect();
    assert_eq!(names, vec!["first".to_string(), "third".to_string()]);
}
