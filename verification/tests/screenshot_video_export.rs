use shader_studio::screenshot_video_export::{
    frame_path, screenshot_layout, ExportFormat, ExportRequest, ExportSettings, ScreenshotVideoExporter,
    VideoExportSettings, VideoFormat,
};

#[test]
fn default_settings() {
    let s = ExportSettings::default();
    assert_eq!(s.format, ExportFormat::Png);
    assert_eq!((s.quality, s.compression, s.width, s.height), (95, 6, 1920, 1080));
    assert!(!s.premultiplied_alpha);
    let v = VideoExportSettings::default();
    assert_eq!(v.format, VideoFormat::Mp4);
    assert_eq!((v.fps, v.bitrate, v.quality), (30, 5000, 90));
    assert_eq!(v.duration_ms, 10_000);
    assert_eq!(v.codec, "h264");
}

#[test]
fn recording_is_queued_as_a_video() {
    let mut e = ScreenshotVideoExporter::new();
    assert_eq!(e.stop_recording("out/clip"), Err("Not recording".to_string()));
    assert_eq!(e.recording_time(5), None);
    let settings = VideoExportSettings { fps: 24, codec: "vp9".to_string(), ..VideoExportSettings::default() };
    assert_eq!(e.start_recording(settings, 1000), Ok(()));
    assert!(e.is_recording());
    assert_eq!(e.start_recording(VideoExportSettings::default(), 1001), Err("Already recording".to_string()));
    assert_eq!(e.recording_time(3500), Some((2500, 10_000)));
    assert_eq!(e.get_recorded_frame_count(), 0);
    assert_eq!(e.stop_recording("out/clip"), Ok(()));
    assert!(!e.is_recording());
    let taken = e.take_export_queue();
    assert_eq!(taken.len(), 1);
    match &taken[0] {
        ExportRequest::Video { file_path, frames, settings } => {
            assert_eq!(file_path, "out/clip");
            assert_eq!(settings.codec, "vp9");
            assert_eq!((settings.fps, settings.duration_ms), (24, 10_000));
            assert!(frames.is_empty());
        }
        _ => panic!("expected a video"),
    }
    assert!(e.take_export_queue().is_empty());
    e.finish_processing();
    assert!(e.take_export_queue().is_empty());
}

#[test]
fn a_queue_is_not_taken_twice_while_processing() {
    let mut e = ScreenshotVideoExporter::new();
    e.start_recording(VideoExportSettings::default(), 0).unwrap();
    e.stop_recording("a").unwrap();
    assert_eq!(e.take_export_queue().len(), 1);
    e.start_recording(VideoExportSettings::default(), 10).unwrap();
    e.stop_recording("b").unwrap();
    assert!(e.take_export_queue().is_empty());
    e.finish_processing();
    assert_eq!(e.take_export_queue().len(), 1);
}

#[test]
fn screenshot_rows_are_aligned() {
    let l = screenshot_layout(&ExportSettings::default(), 1000, 2000);
    assert_eq!((l.width, l.height), (1000, 1080));
    assert_eq!(l.aligned_bytes_per_row, 4096);
    assert_eq!(l.buffer_size, 1000 * 1080 * 4);
    let small = ExportSettings { width: 64, height: 16, ..ExportSettings::default() };
    let l = screenshot_layout(&small, 1920, 1080);
    assert_eq!(l.aligned_bytes_per_row, 256);
    assert_eq!(l.buffer_size, 64 * 16 * 4);
}

#[test]
fn frame_files_have_four_digit_numbers() {
    assert_eq!(frame_path("clip", 0), "clip_frame_0000.png");
    assert_eq!(frame_path("clip", 7), "clip_frame_0007.png");
    assert_eq!(frame_path("clip", 42), "clip_frame_0042.png");
    assert_eq!(frame_path("clip", 123), "clip_frame_0123.png");
    assert_eq!(frame_path("clip", 12345), "clip_frame_12345.png");
}
