//! Video sharing with other applications through Spout (Windows) or
//! Syphon (macOS): the sender's configuration, its running state, and the
//! checks each frame passes before it is sent. Times are milliseconds on a
//! clock the caller reads.
use vstd::prelude::*;
use crate::text::{chars_of, nat_text, push_nat, push_str, string_of};

verus! {

#[derive(Clone, Copy, Debug, PartialEq, Eq, Structural)]
pub enum Platform {
    Windows,
    MacOS,
    Linux,
}

#[derive(Clone, Debug)]
pub struct SpoutSyphonConfig {
    pub enabled: bool,
    pub sender_name: String,
    pub width: u32,
    pub height: u32,
    pub fps: u32,
    pub platform: Platform,
}

impl SpoutSyphonConfig {
    /// The default configuration on a platform: disabled, sending as
    /// `WGSL Shader Studio` at 1920x1080 and 60 frames per second.
    pub fn for_platform(platform: Platform) -> (c: Self)
        ensures
            !c.enabled,
            c.sender_name@ == "WGSL Shader Studio"@,
            c.width == 1920,
            c.height == 1080,
            c.fps == 60,
            c.platform == platform,
    {
        SpoutSyphonConfig {
            enabled: false,
            sender_name: string_of(chars_of("WGSL Shader Studio").as_slice()),
            width: 1920,
            height: 1080,
            fps: 60,
            platform,
        }
    }
}

/// The connection status once the sender is set up on a platform.
pub open spec fn initialized_status(p: Platform) -> Seq<char> {
    match p {
        Platform::Windows => "Spout initialized (simulated)"@,
        Platform::MacOS => "Syphon initialized (simulated)"@,
        Platform::Linux => "Linux platform not supported for Spout/Syphon"@,
    }
}

/// The connection status while the sender runs on a platform.
pub open spec fn running_status(p: Platform) -> Seq<char> {
    match p {
        Platform::Windows => "Spout sender running"@,
        Platform::MacOS => "Syphon server running"@,
        Platform::Linux => "Not supported on Linux"@,
    }
}

/// The error for a frame of the wrong size.
pub open spec fn dimension_error(cw: u32, ch: u32, w: u32, h: u32) -> Seq<char> {
    "Frame dimensions mismatch: expected "@ + nat_text(cw as nat) + "x"@ + nat_text(ch as nat) + ", got "@
        + nat_text(w as nat) + "x"@ + nat_text(h as nat)
}

/// The error for pixel data of the wrong length.
pub open spec fn size_error(expected: nat, got: nat) -> Seq<char> {
    "Pixel data size mismatch: expected "@ + nat_text(expected) + " bytes, got "@ + nat_text(got)
}

/// A frame of the configured size.
pub open spec fn fits(c: SpoutSyphonConfig, width: u32, height: u32) -> bool {
    width == c.width && height == c.height
}

/// The state of the sender as the contracts see it.
pub struct SenderState {
    pub running: bool,
    pub frame_count: u64,
    pub started_at: Option<u64>,
    pub last_frame_at: Option<u64>,
    pub connection_status: Seq<char>,
}

/// What is reported of the sender at a moment: the frame rate is the
/// caller's to compute from the frame count and the uptime.
#[derive(Clone, Debug)]
pub struct SpoutSyphonStatus {
    pub is_running: bool,
    pub frame_count: u64,
    pub connection_status: String,
    pub uptime_ms: Option<u64>,
    pub platform: Platform,
}

/// A Spout/Syphon sender.
pub struct SpoutSyphonOutput {
    config: SpoutSyphonConfig,
    is_running: bool,
    frame_count: u64,
    start_time: Option<u64>,
    last_frame_time: Option<u64>,
    connection_status: String,
}

impl SpoutSyphonOutput {
    pub closed spec fn config(&self) -> SpoutSyphonConfig {
        self.config
    }

    pub closed spec fn state(&self) -> SenderState {
        SenderState {
            running: self.is_running,
            frame_count: self.frame_count,
            started_at: self.start_time,
            last_frame_at: self.last_frame_time,
            connection_status: self.connection_status@,
        }
    }

    /// A stopped sender with the given configuration.
    pub fn new(config: SpoutSyphonConfig) -> (o: Self)
        ensures
            o.config() == config,
            o.state() == (SenderState {
                running: false,
                frame_count: 0,
                started_at: None,
                last_frame_at: None,
                connection_status: "Not initialized"@,
            }),
    {
        SpoutSyphonOutput {
            config,
            is_running: false,
            frame_count: 0,
            start_time: None,
            last_frame_time: None,
            connection_status: string_of(chars_of("Not initialized").as_slice()),
        }
    }

    /// Sets the sender up when it is enabled; a disabled sender is left as
    /// it is.
    pub fn initialize(&mut self) -> (r: Result<(), String>)
        ensures
            r is Ok,
            final(self).config() == old(self).config(),
            final(self).state() == if old(self).config().enabled {
                SenderState { connection_status: initialized_status(old(self).config().platform), ..old(self).state() }
            } else {
                old(self).state()
            },
    {
        if !self.config.enabled {
            return Ok(());
        }
        let status = match self.config.platform {
            Platform::Windows => "Spout initialized (simulated)",
            Platform::MacOS => "Syphon initialized (simulated)",
            Platform::Linux => "Linux platform not supported for Spout/Syphon",
        };
        self.connection_status = string_of(chars_of(status).as_slice());
        Ok(())
    }

    /// Starts sending at `now_ms`: refused when disabled or already
    /// running; otherwise the sender is set up and runs from a frame count
    /// of zero.
    pub fn start(&mut self, now_ms: u64) -> (r: Result<(), String>)
        ensures
            final(self).config() == old(self).config(),
            !old(self).config().enabled ==> (r matches Err(e) && e@ == "Spout/Syphon output is disabled"@
                && final(self).state() == old(self).state()),
            old(self).config().enabled && old(self).state().running ==> (r matches Err(e) && e@
                == "Spout/Syphon output already running"@ && final(self).state() == old(self).state()),
            old(self).config().enabled && !old(self).state().running ==> (r is Ok && final(self).state() == (
            SenderState {
                running: true,
                frame_count: 0,
                started_at: Some(now_ms),
                last_frame_at: Some(now_ms),
                connection_status: running_status(old(self).config().platform),
            })),
    {
        if !self.config.enabled {
            return Err(string_of(chars_of("Spout/Syphon output is disabled").as_slice()));
        }
        if self.is_running {
            return Err(string_of(chars_of("Spout/Syphon output already running").as_slice()));
        }
        self.initialize()?;
        self.is_running = true;
        self.start_time = Some(now_ms);
        self.last_frame_time = Some(now_ms);
        self.frame_count = 0;
        let status = match self.config.platform {
            Platform::Windows => "Spout sender running",
            Platform::MacOS => "Syphon server running",
            Platform::Linux => "Not supported on Linux",
        };
        self.connection_status = string_of(chars_of(status).as_slice());
        Ok(())
    }

    /// Stops sending; a sender that is not running is left as it is.
    pub fn stop(&mut self) -> (r: Result<(), String>)
        ensures
            r is Ok,
            final(self).config() == old(self).config(),
            final(self).state() == if old(self).state().running {
                SenderState { running: false, connection_status: "Stopped"@, ..old(self).state() }
            } else {
                old(self).state()
            },
    {
        if !self.is_running {
            return Ok(());
        }
        self.is_running = false;
        self.connection_status = string_of(chars_of("Stopped").as_slice());
        Ok(())
    }

    /// Sends a frame at `now_ms`: refused unless the sender runs, the frame
    /// has the configured size, and the pixel data holds four bytes per
    /// pixel; a frame sent is counted.
    pub fn send_frame(&mut self, pixel_data: &[u8], width: u32, height: u32, now_ms: u64) -> (r: Result<(), String>)
        requires
            old(self).state().running && fits(old(self).config(), width, height) ==> width * height * 4 <= u32::MAX,
            old(self).state().running && fits(old(self).config(), width, height) && pixel_data@.len() == width
                * height * 4 ==> old(self).state().frame_count < u64::MAX,
        ensures
            final(self).config() == old(self).config(),
            !old(self).state().running ==> (r matches Err(e) && e@ == "Spout/Syphon output not running"@
                && final(self).state() == old(self).state()),
            old(self).state().running && !fits(old(self).config(), width, height) ==> (r matches Err(e) && e@
                == dimension_error(old(self).config().width, old(self).config().height, width, height)
                && final(self).state() == old(self).state()),
            old(self).state().running && fits(old(self).config(), width, height) && pixel_data@.len() != width
                * height * 4 ==> (r matches Err(e) && e@ == size_error((width * height * 4) as nat, pixel_data@.len())
                && final(self).state() == old(self).state()),
            old(self).state().running && fits(old(self).config(), width, height) && pixel_data@.len() == width
                * height * 4 ==> (r is Ok && final(self).state() == (SenderState {
                frame_count: (old(self).state().frame_count + 1) as u64,
                last_frame_at: Some(now_ms),
                ..old(self).state()
            })),
    {
        if !self.is_running {
            return Err(string_of(chars_of("Spout/Syphon output not running").as_slice()));
        }
        if width != self.config.width || height != self.config.height {
            let mut m: Vec<char> = Vec::new();
            push_str(&mut m, "Frame dimensions mismatch: expected ");
            push_nat(&mut m, self.config.width as u128);
            push_str(&mut m, "x");
            push_nat(&mut m, self.config.height as u128);
            push_str(&mut m, ", got ");
            push_nat(&mut m, width as u128);
            push_str(&mut m, "x");
            push_nat(&mut m, height as u128);
            return Err(string_of(m.as_slice()));
        }
        assert(width * height * 4 <= u32::MAX);
        assert(width * height <= u32::MAX) by (nonlinear_arith)
            requires
                width * height * 4 <= u32::MAX,
        ;
        let expected_size = (width * height * 4) as usize;
        if pixel_data.len() != expected_size {
            let mut m: Vec<char> = Vec::new();
            push_str(&mut m, "Pixel data size mismatch: expected ");
            push_nat(&mut m, expected_size as u128);
            push_str(&mut m, " bytes, got ");
            push_nat(&mut m, pixel_data.len() as u128);
            return Err(string_of(m.as_slice()));
        }
        self.frame_count = self.frame_count + 1;
        self.last_frame_time = Some(now_ms);
        Ok(())
    }

    /// The sender's status at `now_ms`: whether it runs, the frames sent,
    /// the connection status, and how long since it started.
    pub fn get_status(&self, now_ms: u64) -> (s: SpoutSyphonStatus)
        ensures
            s.is_running == self.state().running,
            s.frame_count == self.state().frame_count,
            s.connection_status@ == self.state().connection_status,
            s.uptime_ms == match self.state().started_at {
                Some(t) => Some(if now_ms >= t {
                    (now_ms - t) as u64
                } else {
                    0u64
                }),
                None => None,
            },
            s.platform == self.config().platform,
    {
        let uptime_ms = match self.start_time {
            Some(t) => Some(if now_ms >= t {
                now_ms - t
            } else {
                0
            }),
            None => None,
        };
        SpoutSyphonStatus {
            is_running: self.is_running,
            frame_count: self.frame_count,
            connection_status: string_of(chars_of(self.connection_status.as_str()).as_slice()),
            uptime_ms,
            platform: self.config.platform,
        }
    }

    /// Replaces the configuration: a running sender is stopped first and
    /// started again at `now_ms` if the new configuration is enabled.
    pub fn update_config(&mut self, new_config: SpoutSyphonConfig, now_ms: u64) -> (r: Result<(), String>)
        ensures
            r is Ok,
            final(self).config() == new_config,
            final(self).state() == if old(self).state().running && new_config.enabled {
                SenderState {
                    running: true,
                    frame_count: 0,
                    started_at: Some(now_ms),
                    last_frame_at: Some(now_ms),
                    connection_status: running_status(new_config.platform),
                }
            } else if old(self).state().running {
                SenderState { running: false, connection_status: "Stopped"@, ..old(self).state() }
            } else {
                old(self).state()
            },
    {
        let was_running = self.is_running;
        if was_running {
            self.stop()?;
        }
        self.config = new_config;
        if was_running && self.config.enabled {
            self.start(now_ms)?;
        }
        Ok(())
    }
}

} // verus!
