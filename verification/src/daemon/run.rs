//! How a session comes up, runs and goes down.
//!
//! Each step says what to do next; what came of it decides the step after. The
//! tablet is woken and the app started before the screen is captured, and the
//! tablet is told brightness and rotation before it sees any video.

use vstd::prelude::*;

use crate::capture::session::{BufferMode, CaptureConfig};
use crate::capture::XR24;
use crate::daemon::input::TouchMode;
use crate::daemon::output::{
    reply_view, Compositor, OutputRequest, OutputView, RequestView, VirtualOutput,
};
use crate::daemon::session::{app_installed, Config, ConfigView, APP_ACTIVITY, APP_PACKAGE};
use crate::encoder::{
    default_encoder_config, fourcc_bytes, supported_modifiers, template_modifiers, with_modifier,
    EncoderConfig, EncoderConfigView, PadTemplate,
};
use crate::number::decimal;
use crate::protocol::{is_rotation, ControlKind, ControlMessage, StreamHeader, SOCKET_NAME};
use crate::text::{joined, lines_of, lossy_text, occurs_in, strings, text_of};
use crate::transport::adb::{
    display_size, even_part, forward_port_round_trip, reported_size, shell, stream_height,
    stream_resolution, stream_width, DisplaySizeError, Forward,
};
use crate::transport::sender::stream_header;

verus! {

/// Where a session stands: what it waits for.
#[derive(Debug, Clone, Copy, PartialEq, Eq, Structural)]
pub enum RunStage {
    Start,
    AwaitPackages,
    AwaitPanel,
    AwaitOutput,
    AwaitUnforward,
    AwaitForward,
    AwaitStop,
    StopPause,
    AwaitWake,
    AwaitUnlock,
    WakePause,
    AwaitLaunch,
    LaunchPause,
    AwaitTemplates,
    AwaitSource,
    AwaitFormat,
    AwaitEncoder,
    AwaitTouch,
    AwaitAssociation,
    AwaitTouchWorker,
    AwaitConnect,
    AwaitBrightness,
    AwaitRotation,
    AwaitReader,
    Streaming,
    Reporting,
    AwaitFinalStop,
    Ended,
}

/// What the frames of the source are like.
#[derive(Debug, Clone, Copy, PartialEq, Eq, Structural)]
pub struct Geometry {
    pub width: u32,
    pub height: u32,
    pub fourcc: u32,
    pub modifier: u64,
}

/// What came of a step.
#[derive(Debug)]
pub enum RunEvent {
    /// It is done, whatever came of it.
    Done,
    /// `adb` gave this output, or failed for this reason.
    Adb(Result<String, String>),
    Output(Result<VirtualOutput, String>),
    /// What the encoder takes.
    Templates(Vec<PadTemplate>),
    /// It worked, or failed for this reason.
    Opened(Result<(), String>),
    Format(Result<Geometry, String>),
    /// The stream was asked to end, or broke for this reason.
    StreamEnded(Option<String>),
}

/// Why a session did not come up.
#[derive(Debug)]
pub enum RunError {
    AppNotInstalled,
    BadRotation(u16),
    Adb(String),
    DisplaySize(DisplaySizeError),
    Output(String),
    Forward(String),
    Launch(String),
    /// The output has been handed to another session.
    Consumed,
    Source(String),
    Format(String),
    Encoder(String),
    TouchWorker(String),
    Connect(String),
    Brightness(String),
    Rotation(String),
    Reader(String),
}

pub ghost enum RunErrorView {
    AppNotInstalled,
    BadRotation(u16),
    Adb(Seq<char>),
    DisplaySize(DisplaySizeError),
    Output(Seq<char>),
    Forward(Seq<char>),
    Launch(Seq<char>),
    Consumed,
    Source(Seq<char>),
    Format(Seq<char>),
    Encoder(Seq<char>),
    TouchWorker(Seq<char>),
    Connect(Seq<char>),
    Brightness(Seq<char>),
    Rotation(Seq<char>),
    Reader(Seq<char>),
}

impl View for RunError {
    type V = RunErrorView;

    open spec fn view(&self) -> RunErrorView {
        match self {
            RunError::AppNotInstalled => RunErrorView::AppNotInstalled,
            RunError::BadRotation(d) => RunErrorView::BadRotation(*d),
            RunError::Adb(e) => RunErrorView::Adb(e@),
            RunError::DisplaySize(e) => RunErrorView::DisplaySize(*e),
            RunError::Output(e) => RunErrorView::Output(e@),
            RunError::Forward(e) => RunErrorView::Forward(e@),
            RunError::Launch(e) => RunErrorView::Launch(e@),
            RunError::Consumed => RunErrorView::Consumed,
            RunError::Source(e) => RunErrorView::Source(e@),
            RunError::Format(e) => RunErrorView::Format(e@),
            RunError::Encoder(e) => RunErrorView::Encoder(e@),
            RunError::TouchWorker(e) => RunErrorView::TouchWorker(e@),
            RunError::Connect(e) => RunErrorView::Connect(e@),
            RunError::Brightness(e) => RunErrorView::Brightness(e@),
            RunError::Rotation(e) => RunErrorView::Rotation(e@),
            RunError::Reader(e) => RunErrorView::Reader(e@),
        }
    }
}

/// What to do next.
#[derive(Debug)]
pub enum RunAction {
    /// Run `adb` with these arguments.
    Adb(Vec<String>),
    Sleep(u64),
    CreateOutput(OutputRequest),
    /// Ask what the encoder takes.
    ProbeEncoder,
    /// Capture the output that KWin made, by its stream.
    OpenPlasma(String),
    /// Capture the output of this name.
    OpenCapture(String, CaptureConfig),
    /// Wait until the source knows what its frames are like.
    WaitForFormat,
    StartEncoder(EncoderConfig),
    /// Make an input device for an output of this size.
    OpenTouch { mode: TouchMode, name: String, width: u32, height: u32 },
    /// Tie the touchscreen to the output.
    Associate { device_name: String, output_name: String },
    /// Start the thread that writes touches to the input device.
    StartTouchWorker,
    Connect { port: u16, header: StreamHeader },
    Send(ControlMessage),
    /// Get hold of the line on which the tablet answers.
    OpenReader,
    /// Stream until the session is asked to end or something breaks.
    Stream,
    /// Print what is to be said of the session.
    Report,
    /// The session is over; the stream broke for this reason, if any.
    Finish(Option<String>),
    Fail(RunError),
}

pub ghost struct CaptureConfigView {
    pub mode: BufferMode,
    pub pool_size: usize,
    pub allowed_modifiers: Seq<u64>,
    pub paint_cursor: bool,
}

pub open spec fn capture_config_view(c: CaptureConfig) -> CaptureConfigView {
    CaptureConfigView {
        mode: c.mode,
        pool_size: c.pool_size,
        allowed_modifiers: c.allowed_modifiers@,
        paint_cursor: c.paint_cursor,
    }
}

pub ghost enum RunActionView {
    Adb(Seq<Seq<char>>),
    Sleep(u64),
    CreateOutput(RequestView),
    ProbeEncoder,
    OpenPlasma(Seq<char>),
    OpenCapture(Seq<char>, CaptureConfigView),
    WaitForFormat,
    StartEncoder(EncoderConfigView),
    OpenTouch { mode: TouchMode, name: Seq<char>, width: u32, height: u32 },
    Associate { device_name: Seq<char>, output_name: Seq<char> },
    StartTouchWorker,
    Connect { port: u16, header: StreamHeader },
    Send(ControlMessage),
    OpenReader,
    Stream,
    Report,
    Finish(Option<Seq<char>>),
    Fail(RunErrorView),
}

impl View for RunAction {
    type V = RunActionView;

    open spec fn view(&self) -> RunActionView {
        match self {
            RunAction::Adb(args) => RunActionView::Adb(strings(args@)),
            RunAction::Sleep(ms) => RunActionView::Sleep(*ms),
            RunAction::CreateOutput(r) => RunActionView::CreateOutput(r@),
            RunAction::ProbeEncoder => RunActionView::ProbeEncoder,
            RunAction::OpenPlasma(name) => RunActionView::OpenPlasma(name@),
            RunAction::OpenCapture(name, c) => RunActionView::OpenCapture(
                name@,
                capture_config_view(*c),
            ),
            RunAction::WaitForFormat => RunActionView::WaitForFormat,
            RunAction::StartEncoder(c) => RunActionView::StartEncoder(c@),
            RunAction::OpenTouch { mode, name, width, height } => RunActionView::OpenTouch {
                mode: *mode,
                name: name@,
                width: *width,
                height: *height,
            },
            RunAction::Associate { device_name, output_name } => RunActionView::Associate {
                device_name: device_name@,
                output_name: output_name@,
            },
            RunAction::StartTouchWorker => RunActionView::StartTouchWorker,
            RunAction::Connect { port, header } => RunActionView::Connect {
                port: *port,
                header: *header,
            },
            RunAction::Send(m) => RunActionView::Send(*m),
            RunAction::OpenReader => RunActionView::OpenReader,
            RunAction::Stream => RunActionView::Stream,
            RunAction::Report => RunActionView::Report,
            RunAction::Finish(e) => RunActionView::Finish(text_of(*e)),
            RunAction::Fail(e) => RunActionView::Fail(e@),
        }
    }
}

/// A session on its way up, running, or on its way down.
#[derive(Debug)]
pub struct SessionRun {
    pub serial: String,
    pub config: Config,
    pub compositor: Compositor,
    pub stage: RunStage,
    /// The output, once it is there.
    pub output: Option<VirtualOutput>,
    /// What the frames are like, once that is known.
    pub geometry: Option<Geometry>,
    /// Why the stream broke, once it has.
    pub broken: Option<String>,
}

pub ghost struct RunView {
    pub serial: Seq<char>,
    pub config: ConfigView,
    pub compositor: Compositor,
    pub stage: RunStage,
    pub output: Option<OutputView>,
    pub geometry: Option<Geometry>,
    pub broken: Option<Seq<char>>,
}

impl View for SessionRun {
    type V = RunView;

    open spec fn view(&self) -> RunView {
        RunView {
            serial: self.serial@,
            config: self.config@,
            compositor: self.compositor,
            stage: self.stage,
            output: match self.output {
                Some(o) => Some(o@),
                None => None,
            },
            geometry: self.geometry,
            broken: text_of(self.broken),
        }
    }
}

// ------------------------------------------------------------------- steps ---

/// What a step leads to.
pub type Step = (RunView, RunActionView);

/// A command for the tablet's shell.
pub open spec fn shell_args(serial: Seq<char>, command: Seq<char>) -> Seq<Seq<char>> {
    seq!["-s"@, serial, "shell"@, command]
}

/// The local end of the forward rule.
pub open spec fn local_end(port: u16) -> Seq<char> {
    "tcp:"@ + decimal(port as nat)
}

/// The remote end of the forward rule.
pub open spec fn remote_end() -> Seq<char> {
    "localabstract:"@ + SOCKET_NAME@
}

/// The size of the virtual output: what was asked for, or what suits the
/// tablet's panel; on its side where the tablet is.
pub open spec fn output_size(c: ConfigView, scaled: (u32, u32)) -> (u32, u32) {
    let (w, h) = match c.resolution {
        Some(explicit) => explicit,
        None => scaled,
    };
    if c.rotation == 90 || c.rotation == 270 {
        (h, w)
    } else {
        (w, h)
    }
}

/// What suits a panel.
pub open spec fn scaled_size(panel: (u32, u32), max_width: u32) -> (u32, u32) {
    let width = stream_width(panel.0, max_width);
    (even_part(width) as u32, even_part(stream_height(panel, width)) as u32)
}

/// The panel in landscape.
pub open spec fn landscape(size: (u32, u32)) -> (u32, u32) {
    if size.0 >= size.1 {
        size
    } else {
        (size.1, size.0)
    }
}

/// What the encoder is set up for.
pub open spec fn encoder_settings(c: ConfigView, g: Geometry) -> EncoderConfigView {
    EncoderConfigView {
        width: g.width,
        height: g.height,
        framerate: c.fps,
        bitrate_kbps: c.bitrate_kbps,
        fourcc: g.fourcc,
        modifier: g.modifier,
        ..default_encoder_config()
    }
}

/// What the tablet is told of the stream.
pub open spec fn header_for(c: ConfigView, g: Geometry) -> StreamHeader {
    StreamHeader {
        width: (g.width % 0x1_0000) as u16,
        height: (g.height % 0x1_0000) as u16,
        framerate: (c.fps % 0x1_0000) as u16,
        codec: crate::protocol::Codec::H264,
    }
}

/// The name of the input device.
pub open spec fn touch_name(c: ConfigView) -> Seq<char> {
    c.output_name + "-touch"@
}

/// The brightness to send, which is at most full.
pub open spec fn brightness_message(percent: u8) -> ControlMessage {
    ControlMessage {
        kind: ControlKind::Brightness,
        value: if percent <= 100 {
            percent
        } else {
            100
        },
    }
}

/// The rotation to send.
pub open spec fn rotation_message(c: ConfigView) -> ControlMessage {
    ControlMessage { kind: ControlKind::Rotation, value: (c.rotation / 90) as u8 }
}

impl RunView {
    pub open spec fn at(self, stage: RunStage) -> RunView {
        RunView { stage, ..self }
    }

    pub open spec fn failing(self, e: RunErrorView) -> Step {
        (self.at(RunStage::Ended), RunActionView::Fail(e))
    }

    /// Run a command on the tablet.
    pub open spec fn shelling(self, stage: RunStage, command: Seq<char>) -> Step {
        (self.at(stage), RunActionView::Adb(shell_args(self.serial, command)))
    }

    /// Ask for the output.
    pub open spec fn creating(self, scaled: (u32, u32)) -> Step {
        let (width, height) = output_size(self.config, scaled);
        (
            self.at(RunStage::AwaitOutput),
            RunActionView::CreateOutput(
                RequestView {
                    name: self.config.output_name,
                    width,
                    height,
                    refresh: self.config.fps,
                    x: self.config.position_x,
                    y: self.config.position_y,
                },
            ),
        )
    }

    /// Start writing touches.
    pub open spec fn starting_worker(self) -> Step {
        (self.at(RunStage::AwaitTouchWorker), RunActionView::StartTouchWorker)
    }

    /// Connect to the app.
    pub open spec fn connecting(self) -> Step {
        (
            self.at(RunStage::AwaitConnect),
            RunActionView::Connect {
                port: self.config.port,
                header: header_for(self.config, self.geometry->0),
            },
        )
    }

    /// Tell the tablet how to turn the picture.
    pub open spec fn rotating(self) -> Step {
        (
            self.at(RunStage::AwaitRotation),
            RunActionView::Send(rotation_message(self.config)),
        )
    }

    /// Stop the app one last time.
    pub open spec fn stopping(self) -> Step {
        self.shelling(RunStage::AwaitFinalStop, "am force-stop "@ + APP_PACKAGE@)
    }

    /// Capture the output.
    pub open spec fn opening(self, modifiers: Seq<u64>) -> Step {
        match self.output {
            Some(OutputView::Kwin(Some(name))) => (
                RunView { output: Some(OutputView::Kwin(None)), ..self.at(RunStage::AwaitSource) },
                RunActionView::OpenPlasma(name),
            ),
            Some(OutputView::Owned { name, .. }) => (
                self.at(RunStage::AwaitSource),
                RunActionView::OpenCapture(
                    name,
                    CaptureConfigView {
                        mode: BufferMode::Dmabuf,
                        pool_size: 3,
                        allowed_modifiers: modifiers,
                        paint_cursor: self.config.paint_cursor,
                    },
                ),
            ),
            _ => self.failing(RunErrorView::Consumed),
        }
    }

    /// After the list of the tablet's packages.
    pub open spec fn on_packages(self, reply: Result<Seq<char>, Seq<char>>) -> Step {
        match reply {
            Err(e) => self.failing(RunErrorView::Adb(e)),
            Ok(out) => if !occurs_in(out, APP_PACKAGE@) {
                self.failing(RunErrorView::AppNotInstalled)
            } else if !is_rotation(self.config.rotation) {
                self.failing(RunErrorView::BadRotation(self.config.rotation))
            } else if self.config.resolution is Some {
                self.creating((0, 0))
            } else {
                self.shelling(RunStage::AwaitPanel, "wm size"@)
            },
        }
    }

    /// After the size of the tablet's panel.
    pub open spec fn on_panel(self, reply: Result<Seq<char>, Seq<char>>) -> Step {
        match reply {
            Err(e) => self.failing(RunErrorView::Adb(e)),
            Ok(out) => match reported_size(lines_of(out)) {
                None => self.failing(RunErrorView::DisplaySize(DisplaySizeError::Unparsable)),
                Some((w, h)) => if w == 0 || h == 0 {
                    self.failing(RunErrorView::DisplaySize(DisplaySizeError::ZeroDimension(w, h)))
                } else {
                    self.creating(scaled_size(landscape((w, h)), self.config.max_width))
                },
            },
        }
    }

    /// After `adb` has run.
    pub open spec fn on_adb(self, reply: Result<Seq<char>, Seq<char>>) -> Step {
        match self.stage {
            RunStage::AwaitPackages => self.on_packages(reply),
            RunStage::AwaitPanel => self.on_panel(reply),
            RunStage::AwaitUnforward => (
                self.at(RunStage::AwaitForward),
                RunActionView::Adb(
                    seq![
                        "-s"@,
                        self.serial,
                        "forward"@,
                        local_end(self.config.port),
                        remote_end(),
                    ],
                ),
            ),
            RunStage::AwaitForward => match reply {
                Err(e) => self.failing(RunErrorView::Forward(e)),
                Ok(_) => self.shelling(RunStage::AwaitStop, "am force-stop "@ + APP_PACKAGE@),
            },
            RunStage::AwaitStop => (self.at(RunStage::StopPause), RunActionView::Sleep(500)),
            RunStage::AwaitWake => self.shelling(RunStage::AwaitUnlock, "wm dismiss-keyguard"@),
            RunStage::AwaitUnlock => (self.at(RunStage::WakePause), RunActionView::Sleep(400)),
            RunStage::AwaitLaunch => match reply {
                Err(e) => self.failing(RunErrorView::Launch(e)),
                Ok(_) => (self.at(RunStage::LaunchPause), RunActionView::Sleep(2500)),
            },
            _ => (self.at(RunStage::Ended), RunActionView::Finish(self.broken)),
        }
    }

    /// After something that cannot fail, or whose failure does not matter.
    pub open spec fn on_done(self) -> Step {
        match self.stage {
            RunStage::Start => self.shelling(
                RunStage::AwaitPackages,
                "pm list packages "@ + APP_PACKAGE@,
            ),
            RunStage::StopPause => self.shelling(
                RunStage::AwaitWake,
                "input keyevent KEYCODE_WAKEUP"@,
            ),
            RunStage::WakePause => self.shelling(
                RunStage::AwaitLaunch,
                "am start -n "@ + APP_ACTIVITY@,
            ),
            RunStage::LaunchPause => (
                self.at(RunStage::AwaitTemplates),
                RunActionView::ProbeEncoder,
            ),
            RunStage::AwaitAssociation => self.starting_worker(),
            _ => self.stopping(),
        }
    }

    /// After something that works or fails.
    pub open spec fn on_opened(self, outcome: Option<Seq<char>>) -> Step {
        match (self.stage, outcome) {
            (RunStage::AwaitSource, Some(e)) => self.failing(RunErrorView::Source(e)),
            (RunStage::AwaitSource, None) => (
                self.at(RunStage::AwaitFormat),
                RunActionView::WaitForFormat,
            ),
            (RunStage::AwaitEncoder, Some(e)) => self.failing(RunErrorView::Encoder(e)),
            (RunStage::AwaitEncoder, None) => if self.config.enable_touch {
                (
                    self.at(RunStage::AwaitTouch),
                    RunActionView::OpenTouch {
                        mode: self.config.touch_mode,
                        name: touch_name(self.config),
                        width: self.geometry->0.width,
                        height: self.geometry->0.height,
                    },
                )
            } else {
                self.connecting()
            },
            (RunStage::AwaitTouch, Some(_)) => self.connecting(),
            (RunStage::AwaitTouch, None) => if self.config.touch_mode == TouchMode::Screen
                && self.compositor == Compositor::Kwin {
                (
                    self.at(RunStage::AwaitAssociation),
                    RunActionView::Associate {
                        device_name: touch_name(self.config),
                        output_name: self.config.output_name,
                    },
                )
            } else {
                self.starting_worker()
            },
            (RunStage::AwaitTouchWorker, Some(e)) => self.failing(RunErrorView::TouchWorker(e)),
            (RunStage::AwaitTouchWorker, None) => self.connecting(),
            (RunStage::AwaitConnect, Some(e)) => self.failing(RunErrorView::Connect(e)),
            (RunStage::AwaitConnect, None) => match self.config.brightness {
                Some(percent) => (
                    self.at(RunStage::AwaitBrightness),
                    RunActionView::Send(brightness_message(percent)),
                ),
                None => self.rotating(),
            },
            (RunStage::AwaitBrightness, Some(e)) => self.failing(RunErrorView::Brightness(e)),
            (RunStage::AwaitBrightness, None) => self.rotating(),
            (RunStage::AwaitRotation, Some(e)) => self.failing(RunErrorView::Rotation(e)),
            (RunStage::AwaitRotation, None) => (
                self.at(RunStage::AwaitReader),
                RunActionView::OpenReader,
            ),
            (_, Some(e)) => self.failing(RunErrorView::Reader(e)),
            (_, None) => (self.at(RunStage::Streaming), RunActionView::Stream),
        }
    }

    /// Whether an event is what the session waits for.
    pub open spec fn expects(self, event: RunEvent) -> bool {
        match self.stage {
            RunStage::Start | RunStage::StopPause | RunStage::WakePause | RunStage::LaunchPause
            | RunStage::AwaitAssociation | RunStage::Reporting => event is Done,
            RunStage::AwaitPackages | RunStage::AwaitPanel | RunStage::AwaitUnforward
            | RunStage::AwaitForward | RunStage::AwaitStop | RunStage::AwaitWake
            | RunStage::AwaitUnlock | RunStage::AwaitLaunch | RunStage::AwaitFinalStop =>
                event is Adb,
            RunStage::AwaitOutput => event is Output,
            RunStage::AwaitTemplates => event is Templates,
            RunStage::AwaitSource | RunStage::AwaitEncoder | RunStage::AwaitTouch
            | RunStage::AwaitTouchWorker | RunStage::AwaitConnect | RunStage::AwaitBrightness
            | RunStage::AwaitRotation | RunStage::AwaitReader => event is Opened,
            RunStage::AwaitFormat => event is Format,
            RunStage::Streaming => event is StreamEnded,
            RunStage::Ended => false,
        }
    }

    /// The next step.
    pub open spec fn next(self, event: RunEvent) -> Step {
        match event {
            RunEvent::Done => self.on_done(),
            RunEvent::Adb(reply) => self.on_adb(reply_view(reply)),
            RunEvent::Output(Err(e)) => self.failing(RunErrorView::Output(e@)),
            RunEvent::Output(Ok(output)) => (
                RunView { output: Some(output@), ..self.at(RunStage::AwaitUnforward) },
                RunActionView::Adb(
                    seq![
                        "-s"@,
                        self.serial,
                        "forward"@,
                        "--remove"@,
                        local_end(self.config.port),
                    ],
                ),
            ),
            RunEvent::Templates(templates) => self.opening(
                with_modifier(
                    template_modifiers(templates@, lossy_text(fourcc_bytes(XR24))),
                    0,
                ),
            ),
            RunEvent::Opened(Ok(_)) => self.on_opened(None),
            RunEvent::Opened(Err(e)) => self.on_opened(Some(e@)),
            RunEvent::Format(Err(e)) => self.failing(RunErrorView::Format(e@)),
            RunEvent::Format(Ok(g)) => (
                RunView { geometry: Some(g), ..self.at(RunStage::AwaitEncoder) },
                RunActionView::StartEncoder(encoder_settings(self.config, g)),
            ),
            RunEvent::StreamEnded(why) => {
                let ended = RunView { broken: text_of(why), ..self };
                if self.config.stats {
                    (ended.at(RunStage::Reporting), RunActionView::Report)
                } else {
                    ended.stopping()
                }
            },
        }
    }

    /// What holds at every stage: the rotation has been checked before anything
    /// is touched, and the frames are known from the encoder on.
    pub open spec fn wf(self) -> bool {
        &&& self.stage != RunStage::Start && self.stage != RunStage::AwaitPackages && self.stage
            != RunStage::Ended ==> is_rotation(self.config.rotation)
        &&& self.stage == RunStage::AwaitEncoder || self.stage == RunStage::AwaitTouch || self.stage
            == RunStage::AwaitAssociation || self.stage == RunStage::AwaitTouchWorker || self.stage
            == RunStage::AwaitConnect ==> self.geometry is Some
    }
}

impl SessionRun {
    pub fn new(serial: &str, config: Config, compositor: Compositor) -> (r: Self)
        ensures
            r@.wf(),
            r@ == (RunView {
                serial: serial@,
                config: config@,
                compositor,
                stage: RunStage::Start,
                output: None,
                geometry: None,
                broken: None,
            }),
    {
        SessionRun {
            serial: String::from_str(serial),
            config,
            compositor,
            stage: RunStage::Start,
            output: None,
            geometry: None,
            broken: None,
        }
    }

    /// The next step, after what came of the last.
    pub fn step(&mut self, event: RunEvent) -> (r: RunAction)
        requires
            old(self)@.wf(),
            old(self)@.expects(event),
        ensures
            final(self)@.wf(),
            (final(self)@, r@) == old(self)@.next(event),
    {
        match event {
            RunEvent::Done => self.done(),
            RunEvent::Adb(reply) => self.adb_ran(reply),
            RunEvent::Output(outcome) => self.output_created(outcome),
            RunEvent::Templates(templates) => {
                let modifiers = supported_modifiers(XR24, &templates);
                self.open_source(modifiers)
            },
            RunEvent::Opened(outcome) => {
                let failure = match outcome {
                    Ok(_) => None,
                    Err(e) => Some(e),
                };
                self.opened(failure)
            },
            RunEvent::Format(outcome) => match outcome {
                Err(e) => self.fail(RunError::Format(e)),
                Ok(g) => {
                    let mut settings = EncoderConfig::default();
                    settings.width = g.width;
                    settings.height = g.height;
                    settings.framerate = self.config.fps;
                    settings.bitrate_kbps = self.config.bitrate_kbps;
                    settings.fourcc = g.fourcc;
                    settings.modifier = g.modifier;
                    self.geometry = Some(g);
                    self.stage = RunStage::AwaitEncoder;
                    RunAction::StartEncoder(settings)
                },
            },
            RunEvent::StreamEnded(why) => {
                self.broken = why;
                if self.config.stats {
                    self.stage = RunStage::Reporting;
                    RunAction::Report
                } else {
                    self.final_stop()
                }
            },
        }
    }

    fn fail(&mut self, e: RunError) -> (r: RunAction)
        ensures
            (final(self)@, r@) == old(self)@.failing(e@),
    {
        self.stage = RunStage::Ended;
        RunAction::Fail(e)
    }

    fn shell(&mut self, stage: RunStage, command: &str) -> (r: RunAction)
        ensures
            (final(self)@, r@) == old(self)@.shelling(stage, command@),
    {
        self.stage = stage;
        RunAction::Adb(shell(self.serial.as_str(), command))
    }

    fn final_stop(&mut self) -> (r: RunAction)
        ensures
            (final(self)@, r@) == old(self)@.stopping(),
    {
        let command = joined("am force-stop ", APP_PACKAGE);
        self.shell(RunStage::AwaitFinalStop, command.as_str())
    }

    fn done(&mut self) -> (r: RunAction)
        requires
            old(self)@.wf(),
            old(self)@.expects(RunEvent::Done),
        ensures
            final(self)@.wf(),
            (final(self)@, r@) == old(self)@.on_done(),
    {
        match self.stage {
            RunStage::Start => {
                let command = joined("pm list packages ", APP_PACKAGE);
                self.shell(RunStage::AwaitPackages, command.as_str())
            },
            RunStage::StopPause => self.shell(
                RunStage::AwaitWake,
                "input keyevent KEYCODE_WAKEUP",
            ),
            RunStage::WakePause => {
                let command = joined("am start -n ", APP_ACTIVITY);
                self.shell(RunStage::AwaitLaunch, command.as_str())
            },
            RunStage::LaunchPause => {
                self.stage = RunStage::AwaitTemplates;
                RunAction::ProbeEncoder
            },
            RunStage::AwaitAssociation => {
                self.stage = RunStage::AwaitTouchWorker;
                RunAction::StartTouchWorker
            },
            _ => self.final_stop(),
        }
    }

    fn create_output(&mut self, scaled: (u32, u32)) -> (r: RunAction)
        requires
            is_rotation(old(self)@.config.rotation),
        ensures
            final(self)@.wf(),
            (final(self)@, r@) == old(self)@.creating(scaled),
    {
        let (w, h) = match self.config.resolution {
            Some(explicit) => explicit,
            None => scaled,
        };
        let (width, height) = if self.config.rotation == 90 || self.config.rotation == 270 {
            (h, w)
        } else {
            (w, h)
        };
        self.stage = RunStage::AwaitOutput;
        RunAction::CreateOutput(
            OutputRequest {
                name: self.config.output_name.clone(),
                width,
                height,
                refresh: self.config.fps,
                x: self.config.position_x,
                y: self.config.position_y,
            },
        )
    }

    fn packages_listed(&mut self, reply: Result<String, String>) -> (r: RunAction)
        ensures
            final(self)@.wf(),
            (final(self)@, r@) == old(self)@.on_packages(reply_view(reply)),
    {
        let out = match reply {
            Ok(out) => out,
            Err(e) => {
                return self.fail(RunError::Adb(e));
            },
        };
        if !app_installed(out.as_str()) {
            return self.fail(RunError::AppNotInstalled);
        }
        match ControlMessage::rotation(self.config.rotation) {
            Ok(_) => {},
            Err(_) => {
                return self.fail(RunError::BadRotation(self.config.rotation));
            },
        }
        if self.config.resolution.is_some() {
            self.create_output((0, 0))
        } else {
            self.shell(RunStage::AwaitPanel, "wm size")
        }
    }

    fn panel_measured(&mut self, reply: Result<String, String>) -> (r: RunAction)
        requires
            is_rotation(old(self)@.config.rotation),
        ensures
            final(self)@.wf(),
            (final(self)@, r@) == old(self)@.on_panel(reply_view(reply)),
    {
        let out = match reply {
            Ok(out) => out,
            Err(e) => {
                return self.fail(RunError::Adb(e));
            },
        };
        match display_size(out.as_str()) {
            Ok(panel) => {
                let scaled = stream_resolution(panel, self.config.max_width);
                self.create_output(scaled)
            },
            Err(e) => self.fail(RunError::DisplaySize(e)),
        }
    }

    fn forward(&self) -> (r: Forward)
        ensures
            r.serial@ == self.serial@,
            r.local@ == local_end(self.config.port),
            r.remote@ == remote_end(),
    {
        let remote = joined("localabstract:", SOCKET_NAME);
        Forward::new(self.serial.as_str(), self.config.port, remote.as_str())
    }

    fn adb_ran(&mut self, reply: Result<String, String>) -> (r: RunAction)
        requires
            old(self)@.wf(),
            old(self)@.expects(RunEvent::Adb(reply)),
        ensures
            final(self)@.wf(),
            (final(self)@, r@) == old(self)@.on_adb(reply_view(reply)),
    {
        match self.stage {
            RunStage::AwaitPackages => self.packages_listed(reply),
            RunStage::AwaitPanel => self.panel_measured(reply),
            RunStage::AwaitUnforward => {
                let args = self.forward().install_args();
                self.stage = RunStage::AwaitForward;
                RunAction::Adb(args)
            },
            RunStage::AwaitForward => match reply {
                Err(e) => self.fail(RunError::Forward(e)),
                Ok(_) => {
                    let command = joined("am force-stop ", APP_PACKAGE);
                    self.shell(RunStage::AwaitStop, command.as_str())
                },
            },
            RunStage::AwaitStop => {
                self.stage = RunStage::StopPause;
                RunAction::Sleep(500)
            },
            RunStage::AwaitWake => self.shell(RunStage::AwaitUnlock, "wm dismiss-keyguard"),
            RunStage::AwaitUnlock => {
                self.stage = RunStage::WakePause;
                RunAction::Sleep(400)
            },
            RunStage::AwaitLaunch => match reply {
                Err(e) => self.fail(RunError::Launch(e)),
                Ok(_) => {
                    self.stage = RunStage::LaunchPause;
                    RunAction::Sleep(2500)
                },
            },
            _ => {
                self.stage = RunStage::Ended;
                let why = match &self.broken {
                    Some(e) => Some(e.clone()),
                    None => None,
                };
                RunAction::Finish(why)
            },
        }
    }

    fn output_created(&mut self, outcome: Result<VirtualOutput, String>) -> (r: RunAction)
        requires
            is_rotation(old(self)@.config.rotation),
        ensures
            final(self)@.wf(),
            (final(self)@, r@) == old(self)@.next(RunEvent::Output(outcome)),
    {
        match outcome {
            Err(e) => self.fail(RunError::Output(e)),
            Ok(output) => {
                self.output = Some(output);
                self.stage = RunStage::AwaitUnforward;
                RunAction::Adb(self.forward().remove_args())
            },
        }
    }

    fn open_source(&mut self, modifiers: Vec<u64>) -> (r: RunAction)
        requires
            is_rotation(old(self)@.config.rotation),
        ensures
            final(self)@.wf(),
            (final(self)@, r@) == old(self)@.opening(modifiers@),
    {
        let taken = match &mut self.output {
            Some(output) => match output {
                VirtualOutput::Kwin(slot) => slot.take(),
                VirtualOutput::Owned { .. } => None,
            },
            None => None,
        };
        match taken {
            Some(name) => {
                self.stage = RunStage::AwaitSource;
                return RunAction::OpenPlasma(name);
            },
            None => {},
        }
        let owned = match &self.output {
            Some(VirtualOutput::Owned { name, .. }) => Some(name.clone()),
            _ => None,
        };
        match owned {
            Some(name) => {
                self.stage = RunStage::AwaitSource;
                RunAction::OpenCapture(
                    name,
                    CaptureConfig {
                        mode: BufferMode::Dmabuf,
                        pool_size: 3,
                        allowed_modifiers: modifiers,
                        paint_cursor: self.config.paint_cursor,
                    },
                )
            },
            None => self.fail(RunError::Consumed),
        }
    }

    fn touch_name(&self) -> (r: String)
        ensures
            r@ == touch_name(self.config@),
    {
        joined(self.config.output_name.as_str(), "-touch")
    }

    fn connect(&mut self) -> (r: RunAction)
        requires
            is_rotation(old(self)@.config.rotation),
            old(self)@.geometry is Some,
        ensures
            final(self)@.wf(),
            (final(self)@, r@) == old(self)@.connecting(),
    {
        let g = match self.geometry {
            Some(g) => g,
            None => vstd::pervasive::unreached(),
        };
        let forward = self.forward();
        proof {
            forward_port_round_trip(self.config.port);
        }
        let port: u16 = match forward.local_port() {
            Some(port) => port,
            None => vstd::pervasive::unreached(),
        };
        self.stage = RunStage::AwaitConnect;
        RunAction::Connect { port, header: stream_header(g.width, g.height, self.config.fps) }
    }

    fn send_rotation(&mut self) -> (r: RunAction)
        requires
            is_rotation(old(self)@.config.rotation),
        ensures
            final(self)@.wf(),
            (final(self)@, r@) == old(self)@.rotating(),
    {
        self.stage = RunStage::AwaitRotation;
        match ControlMessage::rotation(self.config.rotation) {
            Ok(message) => RunAction::Send(message),
            Err(_) => vstd::pervasive::unreached(),
        }
    }

    fn opened(&mut self, failure: Option<String>) -> (r: RunAction)
        requires
            old(self)@.wf(),
            old(self)@.expects(RunEvent::Opened(Ok(()))),
        ensures
            final(self)@.wf(),
            (final(self)@, r@) == old(self)@.on_opened(text_of(failure)),
    {
        match self.stage {
            RunStage::AwaitSource => match failure {
                Some(e) => self.fail(RunError::Source(e)),
                None => {
                    self.stage = RunStage::AwaitFormat;
                    RunAction::WaitForFormat
                },
            },
            RunStage::AwaitEncoder => match failure {
                Some(e) => self.fail(RunError::Encoder(e)),
                None => {
                    if !self.config.enable_touch {
                        return self.connect();
                    }
                    let g = match self.geometry {
                        Some(g) => g,
                        None => vstd::pervasive::unreached(),
                    };
                    self.stage = RunStage::AwaitTouch;
                    RunAction::OpenTouch {
                        mode: self.config.touch_mode,
                        name: self.touch_name(),
                        width: g.width,
                        height: g.height,
                    }
                },
            },
            RunStage::AwaitTouch => match failure {
                Some(_) => self.connect(),
                None => {
                    if self.config.touch_mode == TouchMode::Screen && self.compositor
                        == Compositor::Kwin {
                        self.stage = RunStage::AwaitAssociation;
                        RunAction::Associate {
                            device_name: self.touch_name(),
                            output_name: self.config.output_name.clone(),
                        }
                    } else {
                        self.stage = RunStage::AwaitTouchWorker;
                        RunAction::StartTouchWorker
                    }
                },
            },
            RunStage::AwaitTouchWorker => match failure {
                Some(e) => self.fail(RunError::TouchWorker(e)),
                None => self.connect(),
            },
            RunStage::AwaitConnect => match failure {
                Some(e) => self.fail(RunError::Connect(e)),
                None => match self.config.brightness {
                    Some(percent) => {
                        self.stage = RunStage::AwaitBrightness;
                        RunAction::Send(ControlMessage::brightness(percent))
                    },
                    None => self.send_rotation(),
                },
            },
            RunStage::AwaitBrightness => match failure {
                Some(e) => self.fail(RunError::Brightness(e)),
                None => self.send_rotation(),
            },
            RunStage::AwaitRotation => match failure {
                Some(e) => self.fail(RunError::Rotation(e)),
                None => {
                    self.stage = RunStage::AwaitReader;
                    RunAction::OpenReader
                },
            },
            _ => match failure {
                Some(e) => self.fail(RunError::Reader(e)),
                None => {
                    self.stage = RunStage::Streaming;
                    RunAction::Stream
                },
            },
        }
    }
}

// -------------------------------------------------------------------- laws ---

/// A session for a tablet without the app, or with a rotation that there is
/// none, ends before anything is touched: no output is created, nothing is
/// forwarded and nothing is started.
pub proof fn bad_sessions_touch_nothing(v: RunView, reply: Result<String, String>)
    requires
        v.stage == RunStage::AwaitPackages,
        !is_rotation(v.config.rotation) || !(reply matches Ok(out) && occurs_in(
            out@,
            APP_PACKAGE@,
        )),
    ensures
        v.next(RunEvent::Adb(reply)).0.stage == RunStage::Ended,
        v.next(RunEvent::Adb(reply)).1 is Fail,
{
}

/// A tablet that is turned on its side gets an output on its side: the same
/// size as otherwise, with the axes swapped.
pub proof fn rotation_swaps_the_axes(c: ConfigView, scaled: (u32, u32))
    requires
        is_rotation(c.rotation),
    ensures
        ({
            let upright = output_size(ConfigView { rotation: 0, ..c }, scaled);
            let turned = output_size(c, scaled);
            if c.rotation == 90 || c.rotation == 270 {
                turned == (upright.1, upright.0)
            } else {
                turned == upright
            }
        }),
{
}

/// Rotation is told after brightness, and both before any video: the stream
/// only begins once the line back has been had, and that is only asked for once
/// the rotation has gone out.
pub proof fn controls_come_before_video(v: RunView, event: RunEvent)
    requires
        v.wf(),
        v.expects(event),
    ensures
        v.next(event).1 is Stream ==> v.stage == RunStage::AwaitReader && (event matches
            RunEvent::Opened(Ok(_))),
        v.next(event).0.stage == RunStage::AwaitReader ==> v.next(event).1 is OpenReader && v.stage
            == RunStage::AwaitRotation && (event matches RunEvent::Opened(Ok(_))),
{
}

/// The last message that goes out before the stream begins is the rotation
/// that was asked for, and comes straight after the connection or the
/// brightness.
pub proof fn rotation_is_told(v: RunView, event: RunEvent)
    requires
        v.wf(),
        v.expects(event),
        v.next(event).0.stage == RunStage::AwaitRotation,
    ensures
        v.next(event).1 == RunActionView::Send(rotation_message(v.config)),
        v.stage == RunStage::AwaitConnect && v.config.brightness is None || v.stage
            == RunStage::AwaitBrightness,
        crate::protocol::degrees_of(rotation_message(v.config).value) == v.config.rotation,
{
}

/// Touch never stands in the way: where the input device cannot be had, the
/// session goes on without.
pub proof fn touch_is_optional(v: RunView, why: String)
    requires
        v.wf(),
        v.stage == RunStage::AwaitTouch,
    ensures
        v.next(RunEvent::Opened(Err::<(), String>(why))) == v.connecting(),
{
}

/// Where the thread that writes touches cannot be started, or the line back from
/// the tablet cannot be had, the session ends at once with that reason.
pub proof fn missing_helpers_end_the_session(v: RunView, why: String)
    requires
        v.wf(),
        v.stage == RunStage::AwaitTouchWorker || v.stage == RunStage::AwaitReader,
    ensures
        v.next(RunEvent::Opened(Err::<(), String>(why))) == v.failing(
            if v.stage == RunStage::AwaitTouchWorker {
                RunErrorView::TouchWorker(why@)
            } else {
                RunErrorView::Reader(why@)
            },
        ),
{
}

/// Once the stream has ended, for whatever reason, the app on the tablet is
/// stopped and the session ends with that reason.
pub proof fn ended_streams_are_wound_up(v: RunView, why: Option<String>, reply: Result<
    String,
    String,
>)
    requires
        v.wf(),
        v.stage == RunStage::Streaming,
    ensures
        ({
            let ended = v.next(RunEvent::StreamEnded(why));
            let stopping = if v.config.stats {
                ended.0.next(RunEvent::Done)
            } else {
                ended
            };
            &&& v.config.stats ==> ended.1 is Report
            &&& stopping.1 == RunActionView::Adb(
                shell_args(v.serial, "am force-stop "@ + APP_PACKAGE@),
            )
            &&& stopping.0.next(RunEvent::Adb(reply)).1 == RunActionView::Finish(text_of(why))
            &&& stopping.0.next(RunEvent::Adb(reply)).0.stage == RunStage::Ended
        }),
{
}

/// How far a session is from its end.
pub open spec fn steps_left(stage: RunStage) -> int {
    match stage {
        RunStage::Start => 27,
        RunStage::AwaitPackages => 26,
        RunStage::AwaitPanel => 25,
        RunStage::AwaitOutput => 24,
        RunStage::AwaitUnforward => 23,
        RunStage::AwaitForward => 22,
        RunStage::AwaitStop => 21,
        RunStage::StopPause => 20,
        RunStage::AwaitWake => 19,
        RunStage::AwaitUnlock => 18,
        RunStage::WakePause => 17,
        RunStage::AwaitLaunch => 16,
        RunStage::LaunchPause => 15,
        RunStage::AwaitTemplates => 14,
        RunStage::AwaitSource => 13,
        RunStage::AwaitFormat => 12,
        RunStage::AwaitEncoder => 11,
        RunStage::AwaitTouch => 10,
        RunStage::AwaitAssociation => 9,
        RunStage::AwaitTouchWorker => 8,
        RunStage::AwaitConnect => 7,
        RunStage::AwaitBrightness => 6,
        RunStage::AwaitRotation => 5,
        RunStage::AwaitReader => 4,
        RunStage::Streaming => 3,
        RunStage::Reporting => 2,
        RunStage::AwaitFinalStop => 1,
        RunStage::Ended => 0,
    }
}

/// A session never goes round in circles: every step brings it closer to its
/// end.
pub proof fn sessions_make_progress(v: RunView, event: RunEvent)
    requires
        v.wf(),
        v.expects(event),
    ensures
        0 <= steps_left(v.next(event).0.stage) < steps_left(v.stage),
        v.next(event).0.wf(),
        v.next(event).0.serial == v.serial && v.next(event).0.config == v.config,
{
}

/// The brightness that was asked for is the first thing that the tablet is told
/// once it is connected, and full brightness where more was asked for; where none
/// was, it is told the rotation at once.
pub proof fn brightness_is_told(v: RunView, event: RunEvent)
    requires
        v.wf(),
        v.stage == RunStage::AwaitConnect,
        event matches RunEvent::Opened(Ok(_)),
    ensures
        v.config.brightness matches Some(percent) ==> (v.next(event).1 matches RunActionView::Send(
            m,
        ) && m.kind == ControlKind::Brightness && (percent <= 100 ==> m.value == percent) && (percent
            > 100 ==> m.value == 100)),
        v.config.brightness is None ==> (v.next(event).1 matches RunActionView::Send(m) && m.kind
            == ControlKind::Rotation),
{
}

/// The rotation that the tablet is told is the one that was asked for, in quarter
/// turns, whether or not it was told a brightness before.
pub proof fn rotation_is_told_in_quarter_turns(v: RunView, event: RunEvent)
    requires
        v.wf(),
        v.stage == RunStage::AwaitConnect && v.config.brightness is None || v.stage
            == RunStage::AwaitBrightness,
        event matches RunEvent::Opened(Ok(_)),
    ensures
        v.next(event).1 matches RunActionView::Send(m) && m.kind == ControlKind::Rotation && m.value
            * 90 == v.config.rotation,
{
}

/// Whatever a session runs `adb` for, it is for its own tablet.
pub proof fn commands_go_to_the_tablet(v: RunView, event: RunEvent)
    requires
        v.wf(),
        v.expects(event),
    ensures
        v.next(event).1 matches RunActionView::Adb(args) ==> args.len() >= 4 && args[0] == "-s"@
            && args[1] == v.serial && (args[2] == "shell"@ || args[2] == "forward"@),
{
}

/// The commands that bring the app up, in their order: it is looked for, stopped,
/// the tablet woken and unlocked, and the app started.
pub proof fn the_app_is_started(v: RunView, event: RunEvent)
    requires
        v.wf(),
        v.expects(event),
    ensures
        ({
            let (after, action) = v.next(event);
            &&& v.stage == RunStage::Start ==> action == RunActionView::Adb(
                seq!["-s"@, v.serial, "shell"@, "pm list packages "@ + "com.moreland.display"@],
            )
            &&& v.stage == RunStage::AwaitForward && (event matches RunEvent::Adb(Ok(_)))
                ==> action == RunActionView::Adb(
                seq!["-s"@, v.serial, "shell"@, "am force-stop "@ + "com.moreland.display"@],
            ) && after.stage == RunStage::AwaitStop
            &&& v.stage == RunStage::StopPause ==> action == RunActionView::Adb(
                seq!["-s"@, v.serial, "shell"@, "input keyevent KEYCODE_WAKEUP"@],
            ) && after.stage == RunStage::AwaitWake
            &&& v.stage == RunStage::AwaitWake ==> action == RunActionView::Adb(
                seq!["-s"@, v.serial, "shell"@, "wm dismiss-keyguard"@],
            ) && after.stage == RunStage::AwaitUnlock
            &&& v.stage == RunStage::WakePause ==> action == RunActionView::Adb(
                seq![
                    "-s"@,
                    v.serial,
                    "shell"@,
                    "am start -n "@ + "com.moreland.display/.DisplayActivity"@,
                ],
            ) && after.stage == RunStage::AwaitLaunch
            &&& v.stage == RunStage::AwaitStop ==> action is Sleep && after.stage
                == RunStage::StopPause
            &&& v.stage == RunStage::AwaitUnlock ==> action is Sleep && after.stage
                == RunStage::WakePause
            &&& v.stage == RunStage::AwaitLaunch && (event matches RunEvent::Adb(Ok(_)))
                ==> action is Sleep && after.stage == RunStage::LaunchPause
            &&& v.stage == RunStage::LaunchPause ==> action is ProbeEncoder && after.stage
                == RunStage::AwaitTemplates
        }),
{
}

/// The session's own port is forwarded to the app's socket, after whatever was
/// forwarded from it before is gone; and the connection is made to that port.
pub proof fn the_port_is_forwarded(v: RunView, event: RunEvent)
    requires
        v.wf(),
        v.expects(event),
    ensures
        ({
            let (after, action) = v.next(event);
            let local = "tcp:"@ + decimal(v.config.port as nat);
            &&& event matches RunEvent::Output(Ok(_)) ==> action == RunActionView::Adb(
                seq!["-s"@, v.serial, "forward"@, "--remove"@, local],
            ) && after.stage == RunStage::AwaitUnforward
            &&& v.stage == RunStage::AwaitUnforward ==> action == RunActionView::Adb(
                seq!["-s"@, v.serial, "forward"@, local, "localabstract:"@ + "moreland"@],
            ) && after.stage == RunStage::AwaitForward
            &&& action matches RunActionView::Connect { port, .. } ==> port == v.config.port
        }),
{
}

/// The output that is asked for has the session's name, rate and place.
pub proof fn outputs_are_asked_for_by_name(v: RunView, event: RunEvent)
    requires
        v.wf(),
        v.expects(event),
    ensures
        v.next(event).1 matches RunActionView::CreateOutput(r) ==> r.name == v.config.output_name
            && r.refresh == v.config.fps && r.x == v.config.position_x && r.y
            == v.config.position_y,
{
}

/// An output whose size was asked for has that size, on its side where the tablet
/// is turned a quarter or three; the panel is not asked then.
pub proof fn explicit_sizes_are_kept(v: RunView, reply: Result<String, String>, w: u32, h: u32)
    requires
        v.wf(),
        v.stage == RunStage::AwaitPackages,
        v.config.resolution == Some((w, h)),
        v.config.rotation == 0 || v.config.rotation == 90 || v.config.rotation == 180
            || v.config.rotation == 270,
        reply matches Ok(out) && occurs_in(out@, "com.moreland.display"@),
    ensures
        v.next(RunEvent::Adb(reply)).1 matches RunActionView::CreateOutput(r) && (
        v.config.rotation == 0 || v.config.rotation == 180 ==> r.width == w && r.height == h) && (
        v.config.rotation == 90 || v.config.rotation == 270 ==> r.width == h && r.height == w),
{
}

/// An output whose size was not asked for is even on both axes, no wider than
/// allowed (before it is turned), never wider or taller than the panel in
/// landscape, and of the panel's shape up to the rounding.
pub proof fn panel_sizes_are_fitted(v: RunView, reply: Result<String, String>, pw: u32, ph: u32)
    requires
        v.wf(),
        v.stage == RunStage::AwaitPanel,
        v.config.resolution is None,
        v.config.max_width >= 2,
        reply matches Ok(out) && reported_size(lines_of(out@)) == Some((pw, ph)),
        pw >= 2 && ph >= 2,
    ensures
        ({
            let long = if pw >= ph {
                pw
            } else {
                ph
            };
            let short = if pw >= ph {
                ph
            } else {
                pw
            };
            let turned = v.config.rotation == 90 || v.config.rotation == 270;
            &&& v.next(RunEvent::Adb(reply)).1 matches RunActionView::CreateOutput(r) && {
                let w = if turned {
                    r.height
                } else {
                    r.width
                };
                let h = if turned {
                    r.width
                } else {
                    r.height
                };
                &&& w % 2 == 0 && h % 2 == 0 && w >= 2 && h >= 2
                &&& w <= v.config.max_width && w <= long
                &&& w + 1 >= long || w + 1 >= v.config.max_width
                &&& long <= v.config.max_width ==> h <= short < h + 2
                &&& long > v.config.max_width && v.config.max_width * short >= 2 * long ==> h * long
                    <= v.config.max_width * short < (h + 2) * long
            }
        }),
{
    let panel = landscape((pw, ph));
    let m = v.config.max_width;
    let width = crate::transport::adb::stream_width(panel.0, m);
    let long = panel.0 as int;
    let short = panel.1 as int;
    let q = width * short / long;
    assert(0 <= q <= short && q * long <= width * short < (q + 1) * long) by (nonlinear_arith)
        requires
            q == width * short / long,
            2 <= width <= long,
            short >= 0,
    ;
    if long <= m {
        assert(q == short) by (nonlinear_arith)
            requires
                q == width * short / long,
                width == long,
                long >= 2,
        ;
    } else if m * short >= 2 * long {
        assert(q >= 2) by (nonlinear_arith)
            requires
                q == width * short / long,
                width == m,
                m * short >= 2 * long,
                long >= 2,
        ;
        let h = crate::transport::adb::even_part(
            crate::transport::adb::stream_height(panel, width),
        );
        assert(h <= q <= h + 1);
        assert(h * long <= q * long && (q + 1) * long <= (h + 2) * long) by (nonlinear_arith)
            requires
                h <= q <= h + 1,
                long >= 2,
        ;
    }
}

/// What the source is like reaches the encoder, the input device and the tablet as
/// it is, together with the rate and the bitrate that were asked for.
pub proof fn frames_are_described_as_they_are(v: RunView, event: RunEvent)
    requires
        v.wf(),
        v.expects(event),
    ensures
        ({
            let (after, action) = v.next(event);
            &&& event matches RunEvent::Format(Ok(g)) ==> after.geometry == Some(g) && (action
                matches RunActionView::StartEncoder(c) && c.width == g.width && c.height == g.height
                && c.fourcc == g.fourcc && c.modifier == g.modifier && c.framerate == v.config.fps
                && c.bitrate_kbps == v.config.bitrate_kbps)
            &&& !(event is Format) ==> after.geometry == v.geometry
            &&& action matches RunActionView::OpenTouch { mode, name, width, height } ==> mode
                == v.config.touch_mode && name == v.config.output_name + "-touch"@ && v.geometry
                is Some && width == (v.geometry->0).width && height == (v.geometry->0).height
            &&& action matches RunActionView::Associate { device_name, output_name } ==> device_name
                == v.config.output_name + "-touch"@ && output_name == v.config.output_name
            &&& action matches RunActionView::Connect { port: _, header } ==> v.geometry is Some && ((
            v.geometry->0).width <= 0xffff ==> header.width == (v.geometry->0).width) && ((
            v.geometry->0).height <= 0xffff ==> header.height == (v.geometry->0).height) && (
            v.config.fps <= 0xffff ==> header.framerate == v.config.fps) && header.codec
                == crate::protocol::Codec::H264
        }),
{
}

/// The output that was created is the one that is captured, by buffers that the
/// encoder takes, with the cursor where that was asked for.
pub proof fn the_created_output_is_captured(v: RunView, templates: Vec<PadTemplate>)
    requires
        v.wf(),
        v.stage == RunStage::AwaitTemplates,
    ensures
        ({
            let (after, action) = v.next(RunEvent::Templates(templates));
            &&& v.output matches Some(OutputView::Owned { name, .. }) ==> (action matches
                RunActionView::OpenCapture(n, c) && n == name && c.mode == BufferMode::Dmabuf
                && c.pool_size == 3 && c.paint_cursor == v.config.paint_cursor
                && forall|m: u64| #[trigger]
                c.allowed_modifiers.contains(m) <==> m == 0 || crate::encoder::takes(
                    templates@,
                    lossy_text(fourcc_bytes(0x34325258)),
                    m,
                ))
            &&& v.output matches Some(OutputView::Kwin(Some(name))) ==> action
                == RunActionView::OpenPlasma(name)
            &&& v.output matches Some(OutputView::Kwin(None)) ==> action == RunActionView::Fail(
                RunErrorView::Consumed,
            )
        }),
{
    let wanted = lossy_text(fourcc_bytes(XR24));
    assert forall|m: u64| #[trigger]
        with_modifier(template_modifiers(templates@, wanted), 0).contains(m) <==> m == 0
            || crate::encoder::takes(templates@, wanted, m) by {
        crate::encoder::offered_modifiers_are_those_taken(templates@, wanted, m);
    }
}

/// The output that a session has is the one that it was given, until it is
/// captured.
pub proof fn outputs_are_remembered(v: RunView, event: RunEvent)
    requires
        v.wf(),
        v.expects(event),
    ensures
        event matches RunEvent::Output(Ok(o)) ==> v.next(event).0.output == Some(o@),
        !(event is Output) && !(event is Templates) ==> v.next(event).0.output == v.output,
        v.next(event).0.serial == v.serial && v.next(event).0.config == v.config
            && v.next(event).0.compositor == v.compositor,
{
}

/// An input device is made exactly where touch was not switched off, and only a
/// touchscreen on KWin is tied to its output.
pub proof fn touch_is_set_up_where_wanted(v: RunView, event: RunEvent)
    requires
        v.wf(),
        event matches RunEvent::Opened(Ok(_)),
    ensures
        v.stage == RunStage::AwaitEncoder ==> (v.next(event).1 is OpenTouch <==>
            v.config.enable_touch) && (v.next(event).1 is Connect <==> !v.config.enable_touch),
        v.stage == RunStage::AwaitTouch ==> (v.next(event).1 is Associate <==> v.config.touch_mode
            == TouchMode::Screen && v.compositor == Compositor::Kwin) && (v.next(event).1 is Associate
            || v.next(event).1 is StartTouchWorker),
{
}

/// A step that fails ends the session with the reason that was given, and with the
/// name of what failed.
pub proof fn failures_keep_their_reason(v: RunView, why: String)
    requires
        v.wf(),
    ensures
        v.stage == RunStage::AwaitPackages || v.stage == RunStage::AwaitPanel ==> v.next(
            RunEvent::Adb(Err::<String, String>(why)),
        ).1 == RunActionView::Fail(RunErrorView::Adb(why@)),
        v.stage == RunStage::AwaitForward ==> v.next(
            RunEvent::Adb(Err::<String, String>(why)),
        ).1 == RunActionView::Fail(RunErrorView::Forward(why@)),
        v.stage == RunStage::AwaitLaunch ==> v.next(RunEvent::Adb(Err::<String, String>(why))).1
            == RunActionView::Fail(RunErrorView::Launch(why@)),
        v.next(RunEvent::Output(Err(why))).1 == RunActionView::Fail(RunErrorView::Output(why@)),
        v.next(RunEvent::Format(Err(why))).1 == RunActionView::Fail(RunErrorView::Format(why@)),
        v.stage == RunStage::AwaitSource ==> v.next(RunEvent::Opened(Err::<(), String>(why))).1
            == RunActionView::Fail(RunErrorView::Source(why@)),
        v.stage == RunStage::AwaitEncoder ==> v.next(RunEvent::Opened(Err::<(), String>(why))).1
            == RunActionView::Fail(RunErrorView::Encoder(why@)),
        v.stage == RunStage::AwaitConnect ==> v.next(RunEvent::Opened(Err::<(), String>(why))).1
            == RunActionView::Fail(RunErrorView::Connect(why@)),
        v.stage == RunStage::AwaitBrightness ==> v.next(
            RunEvent::Opened(Err::<(), String>(why)),
        ).1 == RunActionView::Fail(RunErrorView::Brightness(why@)),
        v.stage == RunStage::AwaitRotation ==> v.next(RunEvent::Opened(Err::<(), String>(why))).1
            == RunActionView::Fail(RunErrorView::Rotation(why@)),
{
}

/// What does not matter for the stream does not stop it: an old rule that cannot
/// be removed, an app that cannot be stopped, a tablet that cannot be woken or
/// unlocked.
pub proof fn small_failures_are_passed_over(v: RunView, reply: Result<String, String>, other: Result<
    String,
    String,
>)
    requires
        v.wf(),
        v.stage == RunStage::AwaitUnforward || v.stage == RunStage::AwaitStop || v.stage
            == RunStage::AwaitWake || v.stage == RunStage::AwaitUnlock,
    ensures
        v.next(RunEvent::Adb(reply)) == v.next(RunEvent::Adb(other)),
        !(v.next(RunEvent::Adb(reply)).1 is Fail),
{
}

/// The encoder is set up as always but for what the source and the settings say: a
/// keyframe every 600 frames, a variable bitrate, one slice.
pub proof fn encoders_are_set_up_as_always(v: RunView, event: RunEvent)
    requires
        v.wf(),
        v.expects(event),
    ensures
        v.next(event).1 matches RunActionView::StartEncoder(c) ==> c.keyframe_interval == 600
            && c.rate_control == "vbr"@ && c.target_usage == 3 && c.cabac && c.num_slices == 1,
{
}

/// The tablet gets its time between the steps: half a second after the app is stopped,
/// 400 ms after it is unlocked, two and a half seconds after the app is started.
pub proof fn the_tablet_gets_its_time(v: RunView, event: RunEvent)
    requires
        v.wf(),
        v.expects(event),
    ensures
        v.next(event).1 matches RunActionView::Sleep(ms) ==> {
            &&& v.stage == RunStage::AwaitStop ==> ms == 500
            &&& v.stage == RunStage::AwaitUnlock ==> ms == 400
            &&& v.stage == RunStage::AwaitLaunch ==> ms == 2500
            &&& v.stage == RunStage::AwaitStop || v.stage == RunStage::AwaitUnlock || v.stage
                == RunStage::AwaitLaunch
        },
{
}

/// The panel is asked for its size exactly where no size was asked for; a size that
/// cannot be read, or is empty, ends the session.
pub proof fn panels_are_asked_for_their_size(
    v: RunView,
    reply: Result<String, String>,
    out: Seq<char>,
)
    requires
        v.wf(),
        reply matches Ok(text) && text@ == out,
    ensures
        v.stage == RunStage::AwaitPackages && occurs_in(out, "com.moreland.display"@)
            && is_rotation(v.config.rotation) ==> (v.config.resolution is None <==> v.next(
            RunEvent::Adb(reply),
        ).1 == RunActionView::Adb(seq!["-s"@, v.serial, "shell"@, "wm size"@])),
        v.stage == RunStage::AwaitPackages && !occurs_in(out, "com.moreland.display"@) ==> v.next(
            RunEvent::Adb(reply),
        ).1 == RunActionView::Fail(RunErrorView::AppNotInstalled),
        v.stage == RunStage::AwaitPanel && reported_size(lines_of(out)) is None ==> v.next(
            RunEvent::Adb(reply),
        ).1 == RunActionView::Fail(RunErrorView::DisplaySize(DisplaySizeError::Unparsable)),
        v.stage == RunStage::AwaitPanel ==> (reported_size(lines_of(out)) matches Some((w, h)) ==> (
        w == 0 || h == 0 ==> v.next(RunEvent::Adb(reply)).1 == RunActionView::Fail(
            RunErrorView::DisplaySize(DisplaySizeError::ZeroDimension(w, h)),
        ))),
{
}

/// Once the session ends, it ends with the reason that the stream broke for, if it did,
/// after the app has been stopped and, where that was asked for, what there is to say
/// has been said.
pub proof fn sessions_end_with_the_streams_reason(v: RunView, why: Option<String>, reply: Result<
    String,
    String,
>)
    requires
        v.wf(),
        v.stage == RunStage::Streaming,
    ensures
        ({
            let (ended, first) = v.next(RunEvent::StreamEnded(why));
            let (stopping, stop) = if v.config.stats {
                ended.next(RunEvent::Done)
            } else {
                (ended, first)
            };
            let (over, last) = stopping.next(RunEvent::Adb(reply));
            &&& first is Report <==> v.config.stats
            &&& stop == RunActionView::Adb(
                seq!["-s"@, v.serial, "shell"@, "am force-stop "@ + "com.moreland.display"@],
            )
            &&& why is None ==> last == RunActionView::Finish(None)
            &&& why matches Some(e) ==> last == RunActionView::Finish(Some(e@))
            &&& over.stage == RunStage::Ended
        }),
{
}

} // verus!
