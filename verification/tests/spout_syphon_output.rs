use shader_studio::spout_syphon_output::{Platform, SpoutSyphonConfig, SpoutSyphonOutput};

fn enabled_config(platform: Platform) -> SpoutSyphonConfig {
    SpoutSyphonConfig {
        enabled: true,
        sender_name: "Test Sender".to_string(),
        fps: 30,
        width: 4,
        height: 2,
        platform,
    }
}

#[test]
fn default_configuration() {
    let c = SpoutSyphonConfig::for_platform(Platform::MacOS);
    assert!(!c.enabled);
    assert_eq!(c.sender_name, "WGSL Shader Studio");
    assert_eq!((c.width, c.height, c.fps), (1920, 1080, 60));
    assert_eq!(c.platform, Platform::MacOS);
}

#[test]
fn a_disabled_sender_does_not_start() {
    let mut out = SpoutSyphonOutput::new(SpoutSyphonConfig::for_platform(Platform::Windows));
    assert_eq!(out.start(0), Err("Spout/Syphon output is disabled".to_string()));
    assert_eq!(out.initialize(), Ok(()));
    assert_eq!(out.get_status(0).connection_status, "Not initialized");
}

#[test]
fn frames_are_checked_and_counted() {
    let mut out = SpoutSyphonOutput::new(enabled_config(Platform::Windows));
    let frame = vec![128u8; 4 * 2 * 4];
    assert_eq!(out.send_frame(&frame, 4, 2, 5), Err("Spout/Syphon output not running".to_string()));
    assert_eq!(out.start(1000), Ok(()));
    assert_eq!(out.start(1001), Err("Spout/Syphon output already running".to_string()));
    for k in 0..5u64 {
        assert_eq!(out.send_frame(&frame, 4, 2, 1100 + k), Ok(()));
    }
    assert_eq!(
        out.send_frame(&frame, 8, 2, 1200),
        Err("Frame dimensions mismatch: expected 4x2, got 8x2".to_string())
    );
    assert_eq!(
        out.send_frame(&frame[..10], 4, 2, 1200),
        Err("Pixel data size mismatch: expected 32 bytes, got 10".to_string())
    );
    let status = out.get_status(3000);
    assert!(status.is_running);
    assert_eq!(status.frame_count, 5);
    assert_eq!(status.connection_status, "Spout sender running");
    assert_eq!(status.uptime_ms, Some(2000));
    assert_eq!(out.stop(), Ok(()));
    let status = out.get_status(3500);
    assert!(!status.is_running);
    assert_eq!(status.frame_count, 5);
    assert_eq!(status.connection_status, "Stopped");
}

#[test]
fn updating_the_configuration_restarts_a_running_sender() {
    let mut out = SpoutSyphonOutput::new(enabled_config(Platform::Windows));
    out.start(0).unwrap();
    out.send_frame(&vec![0u8; 32], 4, 2, 10).unwrap();
    assert_eq!(out.update_config(enabled_config(Platform::MacOS), 50), Ok(()));
    let status = out.get_status(60);
    assert!(status.is_running);
    assert_eq!(status.frame_count, 0);
    assert_eq!(status.connection_status, "Syphon server running");
    assert_eq!(status.platform, Platform::MacOS);
    let mut off = enabled_config(Platform::Linux);
    off.enabled = false;
    assert_eq!(out.update_config(off, 70), Ok(()));
    assert!(!out.get_status(80).is_running);
    assert_eq!(out.get_status(80).connection_status, "Stopped");
}

#[test]
fn linux_reports_no_support() {
    let mut out = SpoutSyphonOutput::new(enabled_config(Platform::Linux));
    out.initialize().unwrap();
    assert_eq!(out.get_status(0).connection_status, "Linux platform not supported for Spout/Syphon");
    out.start(0).unwrap();
    assert_eq!(out.get_status(0).connection_status, "Not supported on Linux");
    assert_eq!(out.get_status(0).uptime_ms, Some(0));
}
