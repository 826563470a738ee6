//! Screenshot and video export: export settings, the recording state, the
//! queue of exports waiting to be written, the layout of a screenshot read
//! back from the GPU, and the names of the frame files of a video. Times are
//! milliseconds on a clock the caller reads.
use vstd::prelude::*;
use crate::text::{chars_of, nat_text, push_nat, push_str, string_of};

verus! {

#[derive(Clone, Copy, Debug, PartialEq, Eq, Structural)]
pub enum ExportFormat {
    Png,
    Jpeg,
    Bmp,
    Tiff,
    WebP,
}

#[derive(Clone, Copy, Debug, PartialEq, Eq, Structural)]
pub enum VideoFormat {
    Mp4,
    WebM,
    Gif,
    Apng,
}

#[derive(Clone, Copy, Debug, PartialEq, Eq, Structural)]
pub struct ExportSettings {
    pub format: ExportFormat,
    /// 1 to 100, for JPEG and WebP.
    pub quality: u8,
    /// 1 to 9, for PNG.
    pub compression: u8,
    pub width: u32,
    pub height: u32,
    pub premultiplied_alpha: bool,
}

/// PNG at 1920x1080, quality 95, compression 6, straight alpha.
pub open spec fn default_export_settings() -> ExportSettings {
    ExportSettings {
        format: ExportFormat::Png,
        quality: 95,
        compression: 6,
        width: 1920,
        height: 1080,
        premultiplied_alpha: false,
    }
}

impl Default for ExportSettings {
    /// PNG at 1920x1080, quality 95, compression 6, straight alpha.
    fn default() -> (s: Self)
        ensures
            s == default_export_settings(),
    {
        ExportSettings {
            format: ExportFormat::Png,
            quality: 95,
            compression: 6,
            width: 1920,
            height: 1080,
            premultiplied_alpha: false,
        }
    }
}

#[derive(Clone, Debug)]
pub struct VideoExportSettings {
    pub format: VideoFormat,
    pub fps: u32,
    /// Kilobits per second.
    pub bitrate: u32,
    /// 1 to 100.
    pub quality: u8,
    pub width: u32,
    pub height: u32,
    pub duration_ms: u64,
    pub codec: String,
}

/// Ten seconds of H.264 MP4 at 1920x1080, 30 frames per second,
/// 5000 kbit/s, quality 90.
pub open spec fn default_video_settings(s: VideoExportSettings) -> bool {
    &&& s.format == VideoFormat::Mp4
    &&& s.fps == 30
    &&& s.bitrate == 5000
    &&& s.quality == 90
    &&& s.width == 1920
    &&& s.height == 1080
    &&& s.duration_ms == 10_000
    &&& s.codec@ == "h264"@
}

impl Default for VideoExportSettings {
    /// Ten seconds of H.264 MP4 at 1920x1080, 30 frames per second,
    /// 5000 kbit/s, quality 90.
    fn default() -> (s: Self)
        ensures
            s.format == VideoFormat::Mp4,
            s.fps == 30,
            s.bitrate == 5000,
            s.quality == 90,
            s.width == 1920,
            s.height == 1080,
            s.duration_ms == 10_000,
            s.codec@ == "h264"@,
    {
        VideoExportSettings {
            format: VideoFormat::Mp4,
            fps: 30,
            bitrate: 5000,
            quality: 90,
            width: 1920,
            height: 1080,
            duration_ms: 10_000,
            codec: string_of(chars_of("h264").as_slice()),
        }
    }
}

/// An export waiting to be written.
#[derive(Clone, Debug)]
pub enum ExportRequest {
    Screenshot { file_path: String, settings: ExportSettings, pixel_data: Vec<u8> },
    Video { file_path: String, settings: VideoExportSettings, frames: Vec<Vec<u8>> },
}

/// What the exporter holds.
#[derive(Clone, Debug)]
pub struct ExportState {
    pub is_recording: bool,
    pub recording_start_time: Option<u64>,
    pub recorded_frames: Vec<Vec<u8>>,
    pub current_video_settings: VideoExportSettings,
    pub current_export_settings: ExportSettings,
    pub export_queue: Vec<ExportRequest>,
    pub processing: bool,
}

impl Default for ExportState {
    /// Not recording, nothing recorded or queued, default settings.
    fn default() -> (s: Self)
        ensures
            !s.is_recording,
            s.recording_start_time is None,
            s.recorded_frames@.len() == 0,
            s.export_queue@.len() == 0,
            !s.processing,
            s.current_export_settings == default_export_settings(),
            default_video_settings(s.current_video_settings),
    {
        ExportState {
            is_recording: false,
            recording_start_time: None,
            recorded_frames: Vec::new(),
            current_video_settings: VideoExportSettings::default(),
            current_export_settings: ExportSettings::default(),
            export_queue: Vec::new(),
            processing: false,
        }
    }
}

/// A video's settings as the contracts see them: format, frame rate,
/// bitrate, quality, size, duration and codec.
pub open spec fn video_view(s: VideoExportSettings) -> (VideoFormat, u32, u32, u8, u32, u32, u64, Seq<char>) {
    (s.format, s.fps, s.bitrate, s.quality, s.width, s.height, s.duration_ms, s.codec@)
}

pub open spec fn frames_view(f: Seq<Vec<u8>>) -> Seq<Seq<u8>> {
    f.map_values(|x: Vec<u8>| x@)
}

/// A request as the contracts see it.
pub enum RequestView {
    Screenshot(Seq<char>, ExportSettings, Seq<u8>),
    Video(Seq<char>, (VideoFormat, u32, u32, u8, u32, u32, u64, Seq<char>), Seq<Seq<u8>>),
}

/// A request with its path, its settings and its pixels or frames.
pub open spec fn request_view(r: ExportRequest) -> RequestView {
    match r {
        ExportRequest::Screenshot { file_path, settings, pixel_data } => RequestView::Screenshot(
            file_path@,
            settings,
            pixel_data@,
        ),
        ExportRequest::Video { file_path, settings, frames } => RequestView::Video(
            file_path@,
            video_view(settings),
            frames_view(frames@),
        ),
    }
}

pub open spec fn requests_view(q: Seq<ExportRequest>) -> Seq<RequestView> {
    q.map_values(|r: ExportRequest| request_view(r))
}

/// Records a video and queues screenshots and videos for writing.
pub struct ScreenshotVideoExporter {
    export_state: ExportState,
}

impl ScreenshotVideoExporter {
    pub closed spec fn state(&self) -> ExportState {
        self.export_state
    }

    /// Not recording, nothing recorded or queued, default settings.
    pub fn new() -> (e: Self)
        ensures
            !e.state().is_recording,
            e.state().recording_start_time is None,
            e.state().recorded_frames@.len() == 0,
            e.state().export_queue@.len() == 0,
            !e.state().processing,
            e.state().current_export_settings == default_export_settings(),
            default_video_settings(e.state().current_video_settings),
    {
        ScreenshotVideoExporter { export_state: ExportState::default() }
    }

    /// Starts recording at `now_ms` with the given settings; refused while
    /// recording.
    pub fn start_recording(&mut self, settings: VideoExportSettings, now_ms: u64) -> (r: Result<(), String>)
        ensures
            old(self).state().is_recording ==> (r matches Err(e) && e@ == "Already recording"@
                && final(self).state() == old(self).state()),
            !old(self).state().is_recording ==> {
                &&& r is Ok
                &&& final(self).state().is_recording
                &&& final(self).state().recording_start_time == Some(now_ms)
                &&& final(self).state().recorded_frames@.len() == 0
                &&& final(self).state().current_video_settings == settings
                &&& requests_view(final(self).state().export_queue@) == requests_view(
                    old(self).state().export_queue@,
                )
                &&& final(self).state().processing == old(self).state().processing
                &&& final(self).state().current_export_settings == old(self).state().current_export_settings
            },
    {
        if self.export_state.is_recording {
            return Err(string_of(chars_of("Already recording").as_slice()));
        }
        self.export_state.is_recording = true;
        self.export_state.recording_start_time = Some(now_ms);
        self.export_state.recorded_frames.clear();
        self.export_state.current_video_settings = settings;
        Ok(())
    }

    /// Stops recording and queues the recorded frames as a video to be
    /// written at `file_path`; refused when not recording.
    pub fn stop_recording(&mut self, file_path: &str) -> (r: Result<(), String>)
        ensures
            !old(self).state().is_recording ==> (r matches Err(e) && e@ == "Not recording"@
                && final(self).state() == old(self).state()),
            old(self).state().is_recording ==> {
                &&& r is Ok
                &&& !final(self).state().is_recording
                &&& final(self).state().recording_start_time is None
                &&& final(self).state().recorded_frames@.len() == 0
                &&& requests_view(final(self).state().export_queue@) == requests_view(
                    old(self).state().export_queue@,
                ).push(
                    RequestView::Video(
                        file_path@,
                        video_view(old(self).state().current_video_settings),
                        frames_view(old(self).state().recorded_frames@),
                    ),
                )
                &&& video_view(final(self).state().current_video_settings) == video_view(
                    old(self).state().current_video_settings,
                )
                &&& final(self).state().processing == old(self).state().processing
                &&& final(self).state().current_export_settings == old(self).state().current_export_settings
            },
    {
        if !self.export_state.is_recording {
            return Err(string_of(chars_of("Not recording").as_slice()));
        }
        let ghost old_frames = frames_view(self.export_state.recorded_frames@);
        let mut frames: Vec<Vec<u8>> = Vec::new();
        std::mem::swap(&mut frames, &mut self.export_state.recorded_frames);
        let settings = copy_video_settings(&self.export_state.current_video_settings);
        self.export_state.is_recording = false;
        self.export_state.recording_start_time = None;
        let ghost q = self.export_state.export_queue@;
        let request = ExportRequest::Video { file_path: string_of(chars_of(file_path).as_slice()), settings, frames };
        self.export_state.export_queue.push(request);
        assert(requests_view(self.export_state.export_queue@) =~= requests_view(q).push(
            RequestView::Video(file_path@, video_view(self.export_state.current_video_settings), old_frames),
        ));
        Ok(())
    }

    /// Takes the queued exports to be written, unless exports are being
    /// written already or none is queued (then none is taken); while they
    /// are written the exporter is marked as processing.
    pub fn take_export_queue(&mut self) -> (taken: Vec<ExportRequest>)
        ensures
            old(self).state().processing || old(self).state().export_queue@.len() == 0 ==> (taken@.len() == 0
                && final(self).state() == old(self).state()),
            !old(self).state().processing && old(self).state().export_queue@.len() > 0 ==> {
                &&& requests_view(taken@) == requests_view(old(self).state().export_queue@)
                &&& final(self).state().processing
                &&& final(self).state().export_queue@.len() == 0
                &&& final(self).state().is_recording == old(self).state().is_recording
                &&& final(self).state().recording_start_time == old(self).state().recording_start_time
                &&& final(self).state().recorded_frames@ == old(self).state().recorded_frames@
                &&& final(self).state().current_export_settings == old(self).state().current_export_settings
            },
    {
        if self.export_state.processing || self.export_state.export_queue.len() == 0 {
            return Vec::new();
        }
        self.export_state.processing = true;
        let mut taken: Vec<ExportRequest> = Vec::new();
        std::mem::swap(&mut taken, &mut self.export_state.export_queue);
        taken
    }

    /// The queued exports were written.
    pub fn finish_processing(&mut self)
        ensures
            !final(self).state().processing,
            final(self).state().is_recording == old(self).state().is_recording,
            final(self).state().recording_start_time == old(self).state().recording_start_time,
            final(self).state().recorded_frames@ == old(self).state().recorded_frames@,
            final(self).state().current_export_settings == old(self).state().current_export_settings,
            requests_view(final(self).state().export_queue@) == requests_view(old(self).state().export_queue@),
    {
        self.export_state.processing = false;
    }

    pub fn is_recording(&self) -> (b: bool)
        ensures
            b == self.state().is_recording,
    {
        self.export_state.is_recording
    }

    pub fn get_recorded_frame_count(&self) -> (n: usize)
        ensures
            n == self.state().recorded_frames@.len(),
    {
        self.export_state.recorded_frames.len()
    }

    /// How long the recording has run at `now_ms`, and how long it is to
    /// run; none when not recording.
    pub fn recording_time(&self, now_ms: u64) -> (r: Option<(u64, u64)>)
        ensures
            r == if self.state().is_recording && self.state().recording_start_time is Some {
                Some(
                    (
                        if now_ms >= self.state().recording_start_time->0 {
                            (now_ms - self.state().recording_start_time->0) as u64
                        } else {
                            0u64
                        },
                        self.state().current_video_settings.duration_ms,
                    ),
                )
            } else {
                None
            },
    {
        if !self.export_state.is_recording {
            return None;
        }
        match self.export_state.recording_start_time {
            None => None,
            Some(t) => Some(
                (if now_ms >= t {
                    now_ms - t
                } else {
                    0
                }, self.export_state.current_video_settings.duration_ms),
            ),
        }
    }
}

/// A copy of video settings.
fn copy_video_settings(s: &VideoExportSettings) -> (c: VideoExportSettings)
    ensures
        video_view(c) == video_view(*s),
{
    VideoExportSettings {
        format: s.format,
        fps: s.fps,
        bitrate: s.bitrate,
        quality: s.quality,
        width: s.width,
        height: s.height,
        duration_ms: s.duration_ms,
        codec: string_of(chars_of(s.codec.as_str()).as_slice()),
    }
}

/// How a screenshot is read back from a texture: the region (the settings'
/// size, cut to the texture), the bytes per row padded to the GPU's
/// 256-byte alignment, and the size of the read-back buffer.
#[derive(Clone, Copy, Debug, PartialEq, Eq, Structural)]
pub struct ScreenshotLayout {
    pub width: u32,
    pub height: u32,
    pub aligned_bytes_per_row: u32,
    pub buffer_size: u64,
}

pub open spec fn min_u32(a: u32, b: u32) -> u32 {
    if a <= b {
        a
    } else {
        b
    }
}

/// The layout of a screenshot of a texture of the given size.
pub fn screenshot_layout(settings: &ExportSettings, texture_width: u32, texture_height: u32) -> (l: ScreenshotLayout)
    requires
        min_u32(settings.width, texture_width) * 4 + 255 <= u32::MAX,
        min_u32(settings.width, texture_width) * min_u32(settings.height, texture_height) * 4 <= u32::MAX,
    ensures
        l.width == min_u32(settings.width, texture_width),
        l.height == min_u32(settings.height, texture_height),
        l.aligned_bytes_per_row == (l.width * 4 + 255) / 256 * 256,
        l.aligned_bytes_per_row % 256 == 0,
        l.width * 4 <= l.aligned_bytes_per_row < l.width * 4 + 256,
        l.buffer_size == l.width * l.height * 4,
{
    let width = if settings.width <= texture_width {
        settings.width
    } else {
        texture_width
    };
    let height = if settings.height <= texture_height {
        settings.height
    } else {
        texture_height
    };
    let bytes_per_row = width * 4;
    let aligned_bytes_per_row = ((bytes_per_row + 255) / 256) * 256;
    assert(width * height <= u32::MAX) by (nonlinear_arith)
        requires
            width * height * 4 <= u32::MAX,
    ;
    let buffer_size = (width * height * 4) as u64;
    ScreenshotLayout { width, height, aligned_bytes_per_row, buffer_size }
}

/// `n` in decimal, padded with zeros on the left to at least `w` digits.
pub open spec fn zero_padded(n: nat, w: nat) -> Seq<char> {
    let t = nat_text(n);
    if t.len() < w {
        Seq::new((w - t.len()) as nat, |i: int| '0') + t
    } else {
        t
    }
}

/// The name of the file for frame `i` of a video written at `file_path`.
pub open spec fn frame_file(file_path: Seq<char>, i: nat) -> Seq<char> {
    file_path + "_frame_"@ + zero_padded(i, 4) + ".png"@
}

proof fn lemma_nat_text_len(n: nat)
    ensures
        nat_text(n).len() >= 1,
        n < 10 ==> nat_text(n).len() == 1,
        10 <= n < 100 ==> nat_text(n).len() == 2,
        100 <= n < 1000 ==> nat_text(n).len() == 3,
        n >= 1000 ==> nat_text(n).len() >= 4,
    decreases n,
{
    if n >= 10 {
        lemma_nat_text_len(n / 10);
    }
}

/// The name of the file for frame `i` of a video written at `file_path`:
/// `<path>_frame_<i>.png`, `i` with at least four digits.
pub fn frame_path(file_path: &str, i: usize) -> (p: String)
    ensures
        p@ == frame_file(file_path@, i as nat),
{
    let mut out: Vec<char> = Vec::new();
    push_str(&mut out, file_path);
    push_str(&mut out, "_frame_");
    let ghost head = out@;
    let ghost t = nat_text(i as nat);
    proof {
        lemma_nat_text_len(i as nat);
    }
    if i < 10 {
        out.push('0');
        out.push('0');
        out.push('0');
        assert(Seq::new((4 - t.len()) as nat, |k: int| '0') =~= seq!['0', '0', '0']);
        assert(out@ =~= head + zero_padded(i as nat, 4).subrange(0, 3));
    } else if i < 100 {
        out.push('0');
        out.push('0');
        assert(Seq::new((4 - t.len()) as nat, |k: int| '0') =~= seq!['0', '0']);
        assert(out@ =~= head + zero_padded(i as nat, 4).subrange(0, 2));
    } else if i < 1000 {
        out.push('0');
        assert(Seq::new((4 - t.len()) as nat, |k: int| '0') =~= seq!['0']);
        assert(out@ =~= head + zero_padded(i as nat, 4).subrange(0, 1));
    } else {
        assert(out@ =~= head + zero_padded(i as nat, 4).subrange(0, 0));
    }
    assert(zero_padded(i as nat, 4) =~= zero_padded(i as nat, 4).subrange(0, zero_padded(i as nat, 4).len() - t.len()) + t);
    push_nat(&mut out, i as u128);
    push_str(&mut out, ".png");
    assert(out@ =~= frame_file(file_path@, i as nat));
    string_of(out.as_slice())
}

} // verus!
