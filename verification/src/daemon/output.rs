//! Virtual output creation, per compositor.
//!
//! On a compositor that implements `ext-image-copy-capture-v1` this is the only
//! compositor-specific part of the project: "create a headless output with this
//! name and mode, and remove it later". KWin has no such protocol; there the
//! output and its PipeWire stream come from one request of its own.

use vstd::prelude::*;

use crate::command::{Invocation, InvocationView};
use crate::daemon::hyprland::{
    hyprland_monitor_state, lua_string, mode_text, monitor_list, monitor_views, place_text,
    push_mode, push_place, quoted, restore_calls, restore_hyprland_monitor_state, MonitorError,
    MonitorState, MonitorView,
};
use crate::number::{decimal, push_decimal, signed_decimal, to_signed, wrapped};
use crate::text::{
    chars_of, contains, fields_of, is_text, join_of, lines, lines_of, lowered, occurs_in,
    same_ignoring_case, same_str, split_on, split_whitespace, text_of, texts, words,
};

verus! {

#[derive(Debug, Clone, Copy, PartialEq, Eq, Structural)]
pub enum Compositor {
    Hyprland,
    /// wlroots-based with a Sway-compatible IPC.
    Sway,
    /// labwc, queried through `wlr-randr`. It has no runtime IPC to *create* an
    /// output, so the session attaches to one the compositor was started with.
    Labwc,
    /// KWin. Virtual output and stream come from a single request.
    Kwin,
    Unsupported,
}

/// What the environment says of the running compositor.
#[derive(Debug)]
pub struct Environment {
    /// `XDG_CURRENT_DESKTOP`
    pub desktop: Option<String>,
    /// Whether `HYPRLAND_INSTANCE_SIGNATURE` is set.
    pub hyprland_signature: bool,
    /// Whether `SWAYSOCK` is set.
    pub swaysock: bool,
    /// Whether `KDE_FULL_SESSION` is set.
    pub kde_full_session: bool,
}

/// The name of the desktop, empty where there is none.
pub open spec fn desktop_text(desktop: Option<String>) -> Seq<char> {
    match desktop {
        Some(text) => text@,
        None => Seq::empty(),
    }
}

/// Whether a text is a name, in any case of letters.
pub open spec fn named(text: Seq<char>, name: Seq<char>) -> bool {
    lowered(text) == lowered(name)
}

/// Whether a field of a list with colons is a name, in any case of letters.
pub open spec fn lists_name(text: Seq<char>, name: Seq<char>) -> bool {
    exists|i: int|
        0 <= i < fields_of(text, ':').len() && named(#[trigger] fields_of(text, ':')[i], name)
}

impl Environment {
    /// Whether the environment points at a compositor.
    pub open spec fn marks(self, c: Compositor) -> bool {
        let desktop = desktop_text(self.desktop);
        match c {
            Compositor::Hyprland => self.hyprland_signature || named(desktop, "Hyprland"@),
            Compositor::Sway => self.swaysock || named(desktop, "sway"@),
            Compositor::Labwc => named(desktop, "labwc"@) || named(desktop, "wlroots"@),
            Compositor::Kwin => lists_name(desktop, "KDE"@) || self.kde_full_session,
            Compositor::Unsupported => false,
        }
    }
}

/// Why a compositor cannot host a session.
#[derive(Debug)]
pub enum SupportError {
    /// Sway names a new output itself, and nothing finds that name yet.
    SwayNotImplemented,
    /// The desktop as it calls itself.
    UnsupportedCompositor(String),
}

pub ghost enum SupportErrorView {
    SwayNotImplemented,
    UnsupportedCompositor(Seq<char>),
}

impl View for SupportError {
    type V = SupportErrorView;

    open spec fn view(&self) -> SupportErrorView {
        match self {
            SupportError::SwayNotImplemented => SupportErrorView::SwayNotImplemented,
            SupportError::UnsupportedCompositor(d) => SupportErrorView::UnsupportedCompositor(d@),
        }
    }
}

/// What a program and its arguments look like.
pub open spec fn invocation(program: Seq<char>, args: Seq<Seq<char>>) -> InvocationView {
    InvocationView { program, args }
}

impl Compositor {
    /// The order in which compositors are looked for.
    pub open spec fn rank(self) -> int {
        match self {
            Compositor::Hyprland => 0,
            Compositor::Sway => 1,
            Compositor::Labwc => 2,
            Compositor::Kwin => 3,
            Compositor::Unsupported => 4,
        }
    }

    /// Identify the running compositor.
    ///
    /// The environment alone is not enough: a service outlives the session that
    /// started it, so a marker can name an instance that exited hours ago. So
    /// every marker is confirmed by a live round trip before it is trusted.
    pub fn detect<F: Fn(Compositor) -> bool>(env: &Environment, confirm: F) -> (r: Self)
        requires
            forall|c: Compositor| #[trigger] confirm.requires((c,)),
        ensures
            r != Compositor::Unsupported ==> env.marks(r) && confirm.ensures((r,), true),
            forall|c: Compositor|
                c.rank() < r.rank() && env.marks(c) ==> #[trigger] confirm.ensures((c,), false),
    {
        let desktop = match &env.desktop {
            Some(text) => chars_of(text.as_str()),
            None => Vec::new(),
        };
        assert(desktop@ =~= desktop_text(env.desktop));
        let desktop = desktop.as_slice();
        if (env.hyprland_signature || same_ignoring_case(desktop, "Hyprland")) && confirm(
            Compositor::Hyprland,
        ) {
            return Compositor::Hyprland;
        }
        if (env.swaysock || same_ignoring_case(desktop, "sway")) && confirm(Compositor::Sway) {
            return Compositor::Sway;
        }
        // labwc has reported itself as both `labwc` and the generic `wlroots`
        // depending on version, so neither value alone identifies it.
        if (same_ignoring_case(desktop, "labwc") || same_ignoring_case(desktop, "wlroots"))
            && confirm(Compositor::Labwc) {
            return Compositor::Labwc;
        }
        if (any_field_named(desktop, "KDE") || env.kde_full_session) && confirm(Compositor::Kwin) {
            return Compositor::Kwin;
        }
        Compositor::Unsupported
    }

    /// The round trip that confirms a compositor: it succeeds only while the
    /// compositor runs.
    pub open spec fn probe_view(self) -> Option<InvocationView> {
        match self {
            Compositor::Hyprland => Some(invocation("hyprctl"@, seq!["version"@])),
            Compositor::Sway => Some(invocation("swaymsg"@, seq!["-t"@, "get_version"@])),
            Compositor::Labwc => Some(invocation("wlr-randr"@, Seq::empty())),
            Compositor::Kwin => Some(invocation("kscreen-doctor"@, seq!["-o"@])),
            Compositor::Unsupported => None,
        }
    }

    pub fn probe(self) -> (r: Option<Invocation>)
        ensures
            (match r {
                Some(i) => Some(i@),
                None => None,
            }) == self.probe_view(),
    {
        match self {
            Compositor::Hyprland => {
                let run = Invocation::of("hyprctl").arg("version");
                assert(run@.args =~= seq!["version"@]);
                Some(run)
            },
            Compositor::Sway => {
                let run = Invocation::of("swaymsg").arg("-t").arg("get_version");
                assert(run@.args =~= seq!["-t"@, "get_version"@]);
                Some(run)
            },
            Compositor::Labwc => Some(Invocation::of("wlr-randr")),
            Compositor::Kwin => {
                let run = Invocation::of("kscreen-doctor").arg("-o");
                assert(run@.args =~= seq!["-o"@]);
                Some(run)
            },
            Compositor::Unsupported => None,
        }
    }

    pub fn name(self) -> (r: &'static str)
        ensures
            r@ == match self {
                Compositor::Hyprland => "Hyprland"@,
                Compositor::Sway => "Sway"@,
                Compositor::Labwc => "labwc"@,
                Compositor::Kwin => "KWin"@,
                Compositor::Unsupported => "unsupported"@,
            },
    {
        match self {
            Compositor::Hyprland => "Hyprland",
            Compositor::Sway => "Sway",
            Compositor::Labwc => "labwc",
            Compositor::Kwin => "KWin",
            Compositor::Unsupported => "unsupported",
        }
    }

    /// What stands in the way of hosting a session on this compositor.
    pub open spec fn obstacle(self, desktop: Option<String>) -> Option<SupportErrorView> {
        match self {
            Compositor::Sway => Some(SupportErrorView::SwayNotImplemented),
            Compositor::Unsupported => Some(
                SupportErrorView::UnsupportedCompositor(
                    match desktop {
                        Some(text) => text@,
                        None => "unset"@,
                    },
                ),
            ),
            _ => None,
        }
    }

    /// Fail unless this compositor can host a session, so that the daemon can
    /// refuse at startup instead of once per device event.
    pub fn ensure_supported(self, desktop: &Option<String>) -> (r: Result<(), SupportError>)
        ensures
            (match r {
                Ok(_) => None,
                Err(e) => Some(e@),
            }) == self.obstacle(*desktop),
    {
        match self {
            Compositor::Hyprland => Ok(()),
            Compositor::Sway => Err(SupportError::SwayNotImplemented),
            Compositor::Labwc => Ok(()),
            Compositor::Kwin => Ok(()),
            Compositor::Unsupported => Err(
                SupportError::UnsupportedCompositor(
                    match desktop {
                        Some(text) => text.clone(),
                        None => String::from_str("unset"),
                    },
                ),
            ),
        }
    }
}

fn any_field_named(text: &[char], name: &str) -> (r: bool)
    ensures
        r == lists_name(text@, name@),
{
    let fields = split_on(text, ':');
    let ghost all = fields_of(text@, ':');
    let mut i: usize = 0;
    while i < fields.len()
        invariant
            i <= fields@.len(),
            all == fields_of(text@, ':'),
            all == texts(fields@),
            forall|j: int| 0 <= j < i ==> !named(#[trigger] all[j], name@),
        decreases fields@.len() - i,
    {
        assert(all[i as int] == fields@[i as int]@);
        if same_ignoring_case(fields[i].as_slice(), name) {
            return true;
        }
        i += 1;
    }
    false
}

/// Whether a line's first word is the name.
pub open spec fn line_names(line: Seq<char>, name: Seq<char>) -> bool {
    words(line).len() > 0 && words(line)[0] == name
}

/// Whether some line's first word is the name.
pub open spec fn output_listed(lines: Seq<Seq<char>>, name: Seq<char>) -> bool {
    exists|i: int| 0 <= i < lines.len() && line_names(#[trigger] lines[i], name)
}

/// Whether `wlr-randr` lists an output by this exact name.
///
/// It prints each output name at the start of a line and indents that output's
/// properties beneath it, so the first word of a line is the name. Comparing
/// the word rather than a prefix keeps `HEADLESS-1` from matching
/// `HEADLESS-10`.
pub fn labwc_output_exists(name: &str, listing: &str) -> (r: bool)
    ensures
        r == output_listed(lines_of(listing@), name@),
{
    let cs = chars_of(listing);
    let all = lines(cs.as_slice());
    let ghost views = lines_of(listing@);
    let mut i: usize = 0;
    while i < all.len()
        invariant
            i <= all@.len(),
            views == texts(all@),
            views == lines_of(listing@),
            forall|j: int| 0 <= j < i ==> !line_names(#[trigger] views[j], name@),
        decreases all@.len() - i,
    {
        assert(views[i as int] == all@[i as int]@);
        let fields = split_whitespace(all[i].as_slice());
        assert(texts(fields@).len() == fields@.len());
        if fields.len() > 0 && is_text(fields[0].as_slice(), name) {
            return true;
        }
        i += 1;
    }
    false
}

// ---------------------------------------------------------- virtual output ---

/// A headless output. On KWin the output lives and dies with its stream, which
/// a session takes over: its name is then gone.
#[derive(Debug)]
pub enum VirtualOutput {
    Owned { compositor: Compositor, name: String },
    Kwin(Option<String>),
}

pub ghost enum OutputView {
    Owned { compositor: Compositor, name: Seq<char> },
    Kwin(Option<Seq<char>>),
}

impl View for VirtualOutput {
    type V = OutputView;

    open spec fn view(&self) -> OutputView {
        match self {
            VirtualOutput::Owned { compositor, name } => OutputView::Owned {
                compositor: *compositor,
                name: name@,
            },
            VirtualOutput::Kwin(name) => OutputView::Kwin(text_of(*name)),
        }
    }
}

impl OutputView {
    /// What removes the output again: nothing for one that was there before,
    /// and nothing on KWin, where closing the stream does.
    pub open spec fn removal(self) -> Option<InvocationView> {
        match self {
            OutputView::Owned { compositor: Compositor::Hyprland, name } => Some(
                invocation("hyprctl"@, seq!["output"@, "remove"@, name]),
            ),
            OutputView::Owned { compositor: Compositor::Sway, name } => Some(
                invocation("swaymsg"@, seq!["output"@, name, "unplug"@]),
            ),
            _ => None,
        }
    }
}

impl VirtualOutput {
    pub fn name(&self) -> (r: &str)
        ensures
            r@ == match self@ {
                OutputView::Owned { name, .. } => name,
                OutputView::Kwin(Some(name)) => name,
                OutputView::Kwin(None) => "<consumed>"@,
            },
    {
        match self {
            VirtualOutput::Owned { name, .. } => name.as_str(),
            VirtualOutput::Kwin(Some(name)) => name.as_str(),
            VirtualOutput::Kwin(None) => "<consumed>",
        }
    }

    /// Whether the requested mode and position were actually applied. Not on
    /// labwc, where the output keeps whatever geometry it was configured with.
    pub fn applied_mode(&self) -> (r: bool)
        ensures
            r == match self@ {
                OutputView::Owned { compositor, .. } => compositor != Compositor::Labwc,
                OutputView::Kwin(_) => true,
            },
    {
        match self {
            VirtualOutput::Owned { compositor, .. } => *compositor != Compositor::Labwc,
            VirtualOutput::Kwin(_) => true,
        }
    }

    /// Hand the KWin output over to a session. It can be had once.
    pub fn take(&mut self) -> (r: Option<String>)
        ensures
            old(self)@ is Owned ==> r is None && final(self)@ == old(self)@,
            old(self)@ matches OutputView::Kwin(name) ==> text_of(r) == name && final(self)@
                == OutputView::Kwin(None),
    {
        match self {
            VirtualOutput::Owned { .. } => None,
            VirtualOutput::Kwin(slot) => {
                let name = slot.take();
                name
            },
        }
    }

    /// What to run when the output is no longer needed.
    pub fn removal(&self) -> (r: Option<Invocation>)
        ensures
            (match r {
                Some(i) => Some(i@),
                None => None,
            }) == self@.removal(),
    {
        match self {
            VirtualOutput::Owned { compositor, name } => match compositor {
                Compositor::Hyprland => {
                    let run = Invocation::of("hyprctl").arg("output").arg("remove").arg(
                        name.as_str(),
                    );
                    assert(run@.args =~= seq!["output"@, "remove"@, name@]);
                    Some(run)
                },
                Compositor::Sway => {
                    let run = Invocation::of("swaymsg").arg("output").arg(name.as_str()).arg(
                        "unplug",
                    );
                    assert(run@.args =~= seq!["output"@, name@, "unplug"@]);
                    Some(run)
                },
                _ => None,
            },
            VirtualOutput::Kwin(_) => None,
        }
    }
}

// ---------------------------------------------------------------- creation ---

/// How long the compositor gets to settle after a change.
pub const SETTLE_MS: u64 = 400;

/// What KWin shows as the name of the output.
pub const OUTPUT_DESCRIPTION: &'static str = "Moreland tablet monitor";

/// The output that is asked for.
#[derive(Debug)]
pub struct OutputRequest {
    pub name: String,
    pub width: u32,
    pub height: u32,
    pub refresh: u32,
    pub x: i32,
    pub y: i32,
}

pub ghost struct RequestView {
    pub name: Seq<char>,
    pub width: u32,
    pub height: u32,
    pub refresh: u32,
    pub x: i32,
    pub y: i32,
}

impl View for OutputRequest {
    type V = RequestView;

    open spec fn view(&self) -> RequestView {
        RequestView {
            name: self.name@,
            width: self.width,
            height: self.height,
            refresh: self.refresh,
            x: self.x,
            y: self.y,
        }
    }
}

impl RequestView {
    /// The rule that configures the output.
    pub open spec fn rule(self) -> Seq<char> {
        self.name + ","@ + mode_text(self.width, self.height, decimal(self.refresh as nat)) + ","@
            + place_text(self.x, self.y) + ",1"@
    }

    /// The same as a script, for a Hyprland that takes no rules.
    pub open spec fn script(self) -> Seq<char> {
        "hl.monitor({ output = "@ + quoted(self.name) + ", mode = \""@ + mode_text(
            self.width,
            self.height,
            decimal(self.refresh as nat),
        ) + "\", position = \""@ + place_text(self.x, self.y) + "\", scale = 1 })"@
    }
}

/// What to wait for before the next step. The script that restores the layout
/// is carried along from where the layout was read.
#[derive(Debug)]
pub enum Stage {
    Start,
    AwaitListing,
    AwaitPlasma,
    AwaitMonitors,
    AwaitCreate(String),
    Settling(String),
    AwaitRule(String),
    AwaitScript(String),
    AwaitRestore,
    Resting,
    Ended,
}

pub ghost enum StageView {
    Start,
    AwaitListing,
    AwaitPlasma,
    AwaitMonitors,
    AwaitCreate(Seq<char>),
    Settling(Seq<char>),
    AwaitRule(Seq<char>),
    AwaitScript(Seq<char>),
    AwaitRestore,
    Resting,
    Ended,
}

impl View for Stage {
    type V = StageView;

    open spec fn view(&self) -> StageView {
        match self {
            Stage::Start => StageView::Start,
            Stage::AwaitListing => StageView::AwaitListing,
            Stage::AwaitPlasma => StageView::AwaitPlasma,
            Stage::AwaitMonitors => StageView::AwaitMonitors,
            Stage::AwaitCreate(s) => StageView::AwaitCreate(s@),
            Stage::Settling(s) => StageView::Settling(s@),
            Stage::AwaitRule(s) => StageView::AwaitRule(s@),
            Stage::AwaitScript(s) => StageView::AwaitScript(s@),
            Stage::AwaitRestore => StageView::AwaitRestore,
            Stage::Resting => StageView::Resting,
            Stage::Ended => StageView::Ended,
        }
    }
}

impl StageView {
    /// Whether the next step needs the reply of a program.
    pub open spec fn needs_reply(self) -> bool {
        match self {
            StageView::AwaitListing | StageView::AwaitMonitors | StageView::AwaitCreate(_)
            | StageView::AwaitRule(_) | StageView::AwaitScript(_) | StageView::AwaitRestore => true,
            _ => false,
        }
    }
}

/// Why no output could be had.
#[derive(Debug)]
pub enum CreateError {
    Unsupported(SupportError),
    /// labwc cannot create an output, and has none of this name.
    NoSuchOutput(String),
    /// The layout could not be read.
    ReadingMonitors(String),
    BadMonitors(MonitorError),
    CreatingHeadless(String),
    /// The rule or script that was refused, and why.
    Configuring(String, String),
    Restoring(String),
}

pub ghost enum CreateErrorView {
    Unsupported(SupportErrorView),
    NoSuchOutput(Seq<char>),
    ReadingMonitors(Seq<char>),
    BadMonitors(MonitorError),
    CreatingHeadless(Seq<char>),
    Configuring(Seq<char>, Seq<char>),
    Restoring(Seq<char>),
}

impl View for CreateError {
    type V = CreateErrorView;

    open spec fn view(&self) -> CreateErrorView {
        match self {
            CreateError::Unsupported(e) => CreateErrorView::Unsupported(e@),
            CreateError::NoSuchOutput(s) => CreateErrorView::NoSuchOutput(s@),
            CreateError::ReadingMonitors(s) => CreateErrorView::ReadingMonitors(s@),
            CreateError::BadMonitors(e) => CreateErrorView::BadMonitors(*e),
            CreateError::CreatingHeadless(s) => CreateErrorView::CreatingHeadless(s@),
            CreateError::Configuring(a, b) => CreateErrorView::Configuring(a@, b@),
            CreateError::Restoring(s) => CreateErrorView::Restoring(s@),
        }
    }
}

/// What to do next.
#[derive(Debug)]
pub enum Action {
    /// Run a program and hand its reply back.
    Run(Invocation),
    Sleep(u64),
    /// Have KWin create the output, at scale one and with the cursor in the
    /// picture.
    CreatePlasma { name: String, description: String, width: i32, height: i32 },
    Done(VirtualOutput),
    Fail(CreateError),
}

pub ghost enum ActionView {
    Run(InvocationView),
    Sleep(u64),
    CreatePlasma { name: Seq<char>, description: Seq<char>, width: i32, height: i32 },
    Done(OutputView),
    Fail(CreateErrorView),
}

impl View for Action {
    type V = ActionView;

    open spec fn view(&self) -> ActionView {
        match self {
            Action::Run(i) => ActionView::Run(i@),
            Action::Sleep(ms) => ActionView::Sleep(*ms),
            Action::CreatePlasma { name, description, width, height } => ActionView::CreatePlasma {
                name: name@,
                description: description@,
                width: *width,
                height: *height,
            },
            Action::Done(o) => ActionView::Done(o@),
            Action::Fail(e) => ActionView::Fail(e@),
        }
    }
}

pub open spec fn hyprctl(args: Seq<Seq<char>>) -> ActionView {
    ActionView::Run(invocation("hyprctl"@, args))
}

/// Configure the output by its rule.
pub open spec fn configure(request: RequestView, restore: Seq<char>) -> (StageView, ActionView) {
    (
        StageView::AwaitRule(restore),
        hyprctl(seq!["keyword"@, "monitor"@, request.rule()]),
    )
}

/// Give the other monitors their layout back.
pub open spec fn restoring(restore: Seq<char>) -> (StageView, ActionView) {
    (StageView::AwaitRestore, hyprctl(seq!["eval"@, restore]))
}

pub open spec fn failing(e: CreateErrorView) -> (StageView, ActionView) {
    (StageView::Ended, ActionView::Fail(e))
}

/// Whether some monitor has this name.
pub open spec fn monitor_named(monitors: Seq<MonitorView>, name: Seq<char>) -> bool {
    exists|i: int| 0 <= i < monitors.len() && (#[trigger] monitors[i]).name == name
}

/// The first step.
pub open spec fn first_step(
    compositor: Compositor,
    desktop: Option<String>,
    request: RequestView,
) -> (StageView, ActionView) {
    match compositor {
        Compositor::Labwc => (
            StageView::AwaitListing,
            ActionView::Run(invocation("wlr-randr"@, Seq::empty())),
        ),
        Compositor::Hyprland => (
            StageView::AwaitMonitors,
            hyprctl(seq!["monitors"@, "-j"@]),
        ),
        Compositor::Kwin => (
            StageView::AwaitPlasma,
            ActionView::CreatePlasma {
                name: request.name,
                description: OUTPUT_DESCRIPTION@,
                width: wrapped(request.width),
                height: wrapped(request.height),
            },
        ),
        _ => failing(CreateErrorView::Unsupported(compositor.obstacle(desktop)->0)),
    }
}

/// The step after a program has run.
pub open spec fn step_on_reply(
    stage: StageView,
    compositor: Compositor,
    request: RequestView,
    reply: Result<Seq<char>, Seq<char>>,
) -> (StageView, ActionView) {
    match (stage, reply) {
        (StageView::AwaitListing, Ok(out)) if output_listed(lines_of(out), request.name) => (
            StageView::Ended,
            ActionView::Done(OutputView::Owned { compositor, name: request.name }),
        ),
        (StageView::AwaitListing, _) => failing(CreateErrorView::NoSuchOutput(request.name)),
        (StageView::AwaitMonitors, Err(e)) => failing(CreateErrorView::ReadingMonitors(e)),
        (StageView::AwaitMonitors, Ok(json)) => match monitor_list(json) {
            Err(e) => failing(CreateErrorView::BadMonitors(e)),
            Ok(monitors) => {
                let restore = join_of(restore_calls(monitors, request.name), "; "@);
                if monitor_named(monitors, request.name) {
                    configure(request, restore)
                } else {
                    (
                        StageView::AwaitCreate(restore),
                        hyprctl(seq!["output"@, "create"@, "headless"@, request.name]),
                    )
                }
            },
        },
        (StageView::AwaitCreate(_), Err(e)) => failing(CreateErrorView::CreatingHeadless(e)),
        (StageView::AwaitCreate(restore), Ok(_)) => (
            StageView::Settling(restore),
            ActionView::Sleep(SETTLE_MS),
        ),
        (StageView::AwaitRule(_), Err(e)) => failing(
            CreateErrorView::Configuring(request.rule(), e),
        ),
        (StageView::AwaitRule(restore), Ok(out)) => if occurs_in(out, "non-legacy parsers"@) {
            (
                StageView::AwaitScript(restore),
                hyprctl(seq!["eval"@, request.script()]),
            )
        } else {
            restoring(restore)
        },
        (StageView::AwaitScript(_), Err(e)) => failing(
            CreateErrorView::Configuring(request.script(), e),
        ),
        (StageView::AwaitScript(restore), Ok(_)) => restoring(restore),
        (StageView::AwaitRestore, Err(e)) => failing(CreateErrorView::Restoring(e)),
        (StageView::AwaitRestore, Ok(_)) => (StageView::Resting, ActionView::Sleep(SETTLE_MS)),
        _ => (stage, ActionView::Sleep(0)),
    }
}

/// The step after a wait, or after KWin has created the output.
pub open spec fn step_on_go(
    stage: StageView,
    compositor: Compositor,
    desktop: Option<String>,
    request: RequestView,
) -> (StageView, ActionView) {
    match stage {
        StageView::Start => first_step(compositor, desktop, request),
        StageView::AwaitPlasma => (
            StageView::Ended,
            ActionView::Done(OutputView::Kwin(Some(request.name))),
        ),
        StageView::Settling(restore) => configure(request, restore),
        StageView::Resting => (
            StageView::Ended,
            ActionView::Done(OutputView::Owned { compositor, name: request.name }),
        ),
        _ => (stage, ActionView::Sleep(0)),
    }
}

/// The creation of one output, step by step. Each step says what to do; once
/// that is done, the next step is asked for.
#[derive(Debug)]
pub struct Creation {
    pub compositor: Compositor,
    pub desktop: Option<String>,
    pub request: OutputRequest,
    pub stage: Stage,
}

pub open spec fn reply_view(reply: Result<String, String>) -> Result<Seq<char>, Seq<char>> {
    match reply {
        Ok(s) => Ok(s@),
        Err(s) => Err(s@),
    }
}

impl Creation {
    /// Begin to create an output.
    pub fn create(compositor: Compositor, desktop: Option<String>, request: OutputRequest) -> (r:
        Self)
        ensures
            r.compositor == compositor,
            r.desktop == desktop,
            r.request == request,
            r.stage@ is Start,
    {
        Creation { compositor, desktop, request, stage: Stage::Start }
    }

    /// Whether the next step needs the reply of a program.
    pub fn needs_reply(&self) -> (r: bool)
        ensures
            r == self.stage@.needs_reply(),
    {
        match self.stage {
            Stage::AwaitListing => true,
            Stage::AwaitMonitors => true,
            Stage::AwaitCreate(_) => true,
            Stage::AwaitRule(_) => true,
            Stage::AwaitScript(_) => true,
            Stage::AwaitRestore => true,
            _ => false,
        }
    }

    /// The step after a wait, after KWin has created the output, or the first.
    pub fn go(&mut self) -> (r: Action)
        requires
            !old(self).stage@.needs_reply(),
            !(old(self).stage@ is Ended),
        ensures
            (final(self).stage@, r@) == step_on_go(
                old(self).stage@,
                old(self).compositor,
                old(self).desktop,
                old(self).request@,
            ),
            final(self).compositor == old(self).compositor,
            final(self).desktop == old(self).desktop,
            final(self).request == old(self).request,
    {
        let stage = self.take_stage();
        match stage {
            Stage::Start => self.first(),
            Stage::AwaitPlasma => Action::Done(
                VirtualOutput::Kwin(Some(self.request.name.clone())),
            ),
            Stage::Settling(restore) => self.configure(restore),
            Stage::Resting => Action::Done(
                VirtualOutput::Owned {
                    compositor: self.compositor,
                    name: self.request.name.clone(),
                },
            ),
            _ => vstd::pervasive::unreached(),
        }
    }

    /// The step after a program has run, with its output or why it failed.
    pub fn on_reply(&mut self, reply: Result<String, String>) -> (r: Action)
        requires
            old(self).stage@.needs_reply(),
        ensures
            (final(self).stage@, r@) == step_on_reply(
                old(self).stage@,
                old(self).compositor,
                old(self).request@,
                reply_view(reply),
            ),
            final(self).compositor == old(self).compositor,
            final(self).desktop == old(self).desktop,
            final(self).request == old(self).request,
    {
        let stage = self.take_stage();
        match stage {
            Stage::AwaitListing => match reply {
                Ok(out) => {
                    if labwc_output_exists(self.request.name.as_str(), out.as_str()) {
                        Action::Done(
                            VirtualOutput::Owned {
                                compositor: self.compositor,
                                name: self.request.name.clone(),
                            },
                        )
                    } else {
                        Action::Fail(CreateError::NoSuchOutput(self.request.name.clone()))
                    }
                },
                Err(_) => Action::Fail(CreateError::NoSuchOutput(self.request.name.clone())),
            },
            Stage::AwaitMonitors => match reply {
                Ok(json) => self.monitors_read(json.as_str()),
                Err(e) => Action::Fail(CreateError::ReadingMonitors(e)),
            },
            Stage::AwaitCreate(restore) => match reply {
                Ok(_) => {
                    self.stage = Stage::Settling(restore);
                    Action::Sleep(SETTLE_MS)
                },
                Err(e) => Action::Fail(CreateError::CreatingHeadless(e)),
            },
            Stage::AwaitRule(restore) => match reply {
                Ok(out) => {
                    let cs = chars_of(out.as_str());
                    let refusal = chars_of("non-legacy parsers");
                    if contains(cs.as_slice(), refusal.as_slice()) {
                        let run = Invocation::of("hyprctl").arg("eval").arg(
                            self.script().as_str(),
                        );
                        assert(run@.args =~= seq!["eval"@, self.request@.script()]);
                        self.stage = Stage::AwaitScript(restore);
                        Action::Run(run)
                    } else {
                        self.restore(restore)
                    }
                },
                Err(e) => Action::Fail(CreateError::Configuring(self.rule(), e)),
            },
            Stage::AwaitScript(restore) => match reply {
                Ok(_) => self.restore(restore),
                Err(e) => Action::Fail(CreateError::Configuring(self.script(), e)),
            },
            Stage::AwaitRestore => match reply {
                Ok(_) => {
                    self.stage = Stage::Resting;
                    Action::Sleep(SETTLE_MS)
                },
                Err(e) => Action::Fail(CreateError::Restoring(e)),
            },
            _ => vstd::pervasive::unreached(),
        }
    }

    fn take_stage(&mut self) -> (r: Stage)
        ensures
            r@ == old(self).stage@,
            final(self).stage@ is Ended,
            final(self).compositor == old(self).compositor,
            final(self).desktop == old(self).desktop,
            final(self).request == old(self).request,
    {
        let mut stage = Stage::Ended;
        std::mem::swap(&mut self.stage, &mut stage);
        stage
    }

    fn first(&mut self) -> (r: Action)
        requires
            old(self).stage@ is Ended,
        ensures
            (final(self).stage@, r@) == first_step(
                old(self).compositor,
                old(self).desktop,
                old(self).request@,
            ),
            final(self).compositor == old(self).compositor,
            final(self).desktop == old(self).desktop,
            final(self).request == old(self).request,
    {
        match self.compositor {
            Compositor::Labwc => {
                self.stage = Stage::AwaitListing;
                Action::Run(Invocation::of("wlr-randr"))
            },
            Compositor::Hyprland => {
                self.stage = Stage::AwaitMonitors;
                let run = Invocation::of("hyprctl").arg("monitors").arg("-j");
                assert(run@.args =~= seq!["monitors"@, "-j"@]);
                Action::Run(run)
            },
            Compositor::Kwin => {
                self.stage = Stage::AwaitPlasma;
                Action::CreatePlasma {
                    name: self.request.name.clone(),
                    description: String::from_str(OUTPUT_DESCRIPTION),
                    width: to_signed(self.request.width),
                    height: to_signed(self.request.height),
                }
            },
            Compositor::Sway => Action::Fail(
                CreateError::Unsupported(SupportError::SwayNotImplemented),
            ),
            Compositor::Unsupported => Action::Fail(
                CreateError::Unsupported(
                    SupportError::UnsupportedCompositor(
                        match &self.desktop {
                            Some(text) => text.clone(),
                            None => String::from_str("unset"),
                        },
                    ),
                ),
            ),
        }
    }

    fn monitors_read(&mut self, json: &str) -> (r: Action)
        requires
            old(self).stage@ is Ended,
        ensures
            (final(self).stage@, r@) == step_on_reply(
                StageView::AwaitMonitors,
                old(self).compositor,
                old(self).request@,
                Ok(json@),
            ),
            final(self).compositor == old(self).compositor,
            final(self).desktop == old(self).desktop,
            final(self).request == old(self).request,
    {
        let states = match hyprland_monitor_state(json) {
            Ok(states) => states,
            Err(e) => {
                return Action::Fail(CreateError::BadMonitors(e));
            },
        };
        let restore = restore_hyprland_monitor_state(&states, self.request.name.as_str());
        if has_monitor(&states, self.request.name.as_str()) {
            return self.configure(restore);
        }
        let run = Invocation::of("hyprctl").arg("output").arg("create").arg("headless").arg(
            self.request.name.as_str(),
        );
        assert(run@.args =~= seq!["output"@, "create"@, "headless"@, self.request.name@]);
        self.stage = Stage::AwaitCreate(restore);
        Action::Run(run)
    }

    fn configure(&mut self, restore: String) -> (r: Action)
        ensures
            (final(self).stage@, r@) == configure(old(self).request@, restore@),
            final(self).compositor == old(self).compositor,
            final(self).desktop == old(self).desktop,
            final(self).request == old(self).request,
    {
        let run = Invocation::of("hyprctl").arg("keyword").arg("monitor").arg(
            self.rule().as_str(),
        );
        assert(run@.args =~= seq!["keyword"@, "monitor"@, self.request@.rule()]);
        self.stage = Stage::AwaitRule(restore);
        Action::Run(run)
    }

    fn restore(&mut self, restore: String) -> (r: Action)
        ensures
            (final(self).stage@, r@) == restoring(restore@),
            final(self).compositor == old(self).compositor,
            final(self).desktop == old(self).desktop,
            final(self).request == old(self).request,
    {
        let run = Invocation::of("hyprctl").arg("eval").arg(restore.as_str());
        assert(run@.args =~= seq!["eval"@, restore@]);
        self.stage = Stage::AwaitRestore;
        Action::Run(run)
    }

    fn rate(&self) -> (r: String)
        ensures
            r@ == decimal(self.request.refresh as nat),
    {
        let mut out = String::new();
        push_decimal(&mut out, self.request.refresh as u64);
        assert(out@ =~= decimal(self.request.refresh as nat));
        out
    }

    fn rule(&self) -> (r: String)
        ensures
            r@ == self.request@.rule(),
    {
        let mut out = self.request.name.clone();
        out.append(",");
        push_mode(&mut out, self.request.width, self.request.height, self.rate().as_str());
        out.append(",");
        push_place(&mut out, self.request.x, self.request.y);
        out.append(",1");
        out
    }

    fn script(&self) -> (r: String)
        ensures
            r@ == self.request@.script(),
    {
        let mut out = String::from_str("hl.monitor({ output = ");
        out.append(lua_string(self.request.name.as_str()).as_str());
        out.append(", mode = \"");
        push_mode(&mut out, self.request.width, self.request.height, self.rate().as_str());
        out.append("\", position = \"");
        push_place(&mut out, self.request.x, self.request.y);
        out.append("\", scale = 1 })");
        out
    }
}

fn has_monitor(states: &Vec<MonitorState>, name: &str) -> (r: bool)
    ensures
        r == monitor_named(monitor_views(states@), name@),
{
    let ghost views = monitor_views(states@);
    let mut i: usize = 0;
    while i < states.len()
        invariant
            i <= states@.len(),
            views == monitor_views(states@),
            forall|j: int| 0 <= j < i ==> (#[trigger] views[j]).name != name@,
        decreases states@.len() - i,
    {
        assert(views[i as int] == states@[i as int]@);
        if same_str(states[i].name.as_str(), name) {
            return true;
        }
        i += 1;
    }
    false
}

// -------------------------------------------------------------------- laws ---

/// Where a program fails, the creation is over and says so.
pub proof fn failed_programs_end_the_creation(
    stage: StageView,
    compositor: Compositor,
    request: RequestView,
    why: Seq<char>,
)
    requires
        stage.needs_reply(),
    ensures
        ({
            let (next, action) = step_on_reply(
                stage,
                compositor,
                request,
                Err::<Seq<char>, Seq<char>>(why),
            );
            next is Ended && action is Fail
        }),
{
}

/// On Hyprland an output that is not there is created under its own name and
/// then configured; one that is there is configured straight away. Afterwards
/// the other monitors get their layout back, and the output is ready.
pub proof fn hyprland_creation(
    desktop: Option<String>,
    request: RequestView,
    json: Seq<char>,
    monitors: Seq<MonitorView>,
    out: Seq<char>,
)
    requires
        monitor_list(json) == Ok::<Seq<MonitorView>, MonitorError>(monitors),
        !occurs_in(out, "non-legacy parsers"@),
    ensures
        ({
            let c = Compositor::Hyprland;
            let restore = join_of(restore_calls(monitors, request.name), "; "@);
            let read = step_on_reply(
                first_step(c, desktop, request).0,
                c,
                request,
                Ok::<Seq<char>, Seq<char>>(json),
            );
            let create = hyprctl(seq!["output"@, "create"@, "headless"@, request.name]);
            let ruled = step_on_reply(
                configure(request, restore).0,
                c,
                request,
                Ok::<Seq<char>, Seq<char>>(out),
            );
            let rested = step_on_reply(ruled.0, c, request, Ok::<Seq<char>, Seq<char>>(out));
            &&& monitor_named(monitors, request.name) ==> read == configure(request, restore)
            &&& !monitor_named(monitors, request.name) ==> {
                let made = step_on_reply(read.0, c, request, Ok::<Seq<char>, Seq<char>>(out));
                &&& read.1 == create
                &&& made.1 == ActionView::Sleep(SETTLE_MS)
                &&& step_on_go(made.0, c, desktop, request) == configure(request, restore)
            }
            &&& ruled == restoring(restore)
            &&& rested.1 == ActionView::Sleep(SETTLE_MS)
            &&& step_on_go(rested.0, c, desktop, request) == (
                StageView::Ended,
                ActionView::Done(OutputView::Owned { compositor: c, name: request.name }),
            )
        }),
{
}

/// A Hyprland that takes no rules is given the same as a script.
pub proof fn refused_rules_are_scripted(request: RequestView, restore: Seq<char>, out: Seq<char>)
    requires
        occurs_in(out, "non-legacy parsers"@),
    ensures
        ({
            let c = Compositor::Hyprland;
            let scripted = step_on_reply(
                StageView::AwaitRule(restore),
                c,
                request,
                Ok::<Seq<char>, Seq<char>>(out),
            );
            &&& scripted.1 == hyprctl(seq!["eval"@, request.script()])
            &&& step_on_reply(scripted.0, c, request, Ok::<Seq<char>, Seq<char>>(out))
                == restoring(restore)
        }),
{
}

/// Every monitor but the new one is in the layout that is restored, and the new
/// one is not.
pub proof fn other_monitors_are_restored(monitors: Seq<MonitorView>, name: Seq<char>, i: int)
    requires
        0 <= i < monitors.len(),
    ensures
        monitors[i].name != name ==> restore_calls(monitors, name).contains(
            crate::daemon::hyprland::restore_call(monitors[i]),
        ),
        (forall|j: int| 0 <= j < monitors.len() ==> (#[trigger] monitors[j]).name == name)
            ==> restore_calls(monitors, name).len() == 0,
    decreases monitors.len(),
{
    let head = monitors.drop_last();
    let calls = restore_calls(monitors, name);
    let earlier = restore_calls(head, name);
    if head.len() > 0 {
        let k = if i < head.len() {
            i
        } else {
            0
        };
        other_monitors_are_restored(head, name, k);
        if i < head.len() {
            assert(head[i] == monitors[i]);
            if monitors[i].name != name {
                let call = crate::daemon::hyprland::restore_call(monitors[i]);
                let at = choose|at: int| 0 <= at < earlier.len() && earlier[at] == call;
                assert(calls[at] == call);
            }
        }
        if forall|j: int| 0 <= j < monitors.len() ==> (#[trigger] monitors[j]).name == name {
            assert forall|j: int| 0 <= j < head.len() implies (#[trigger] head[j]).name == name by {
                assert(head[j] == monitors[j]);
            }
        }
    }
    assert(monitors.last() == monitors[monitors.len() - 1]);
    if i == monitors.len() - 1 && monitors[i].name != name {
        assert(calls.last() == crate::daemon::hyprland::restore_call(monitors[i]));
        assert(calls[calls.len() - 1] == calls.last());
    }
}

/// What Hyprland was made to create is what is removed in the end; an output
/// that was found on labwc is left alone.
pub proof fn removal_undoes_creation(name: Seq<char>)
    ensures
        (OutputView::Owned { compositor: Compositor::Hyprland, name }).removal() == Some(
            invocation("hyprctl"@, seq!["output"@, "remove"@, name]),
        ),
        (OutputView::Owned { compositor: Compositor::Labwc, name }).removal() is None,
{
}

/// How far a creation is from its end.
pub open spec fn steps_left(stage: StageView) -> int {
    match stage {
        StageView::Start => 9,
        StageView::AwaitListing | StageView::AwaitPlasma | StageView::AwaitMonitors => 8,
        StageView::AwaitCreate(_) => 7,
        StageView::Settling(_) => 6,
        StageView::AwaitRule(_) => 5,
        StageView::AwaitScript(_) => 4,
        StageView::AwaitRestore => 3,
        StageView::Resting => 2,
        StageView::Ended => 0,
    }
}

/// A creation never goes round in circles: every step brings it closer to its
/// end.
pub proof fn creations_make_progress(
    stage: StageView,
    compositor: Compositor,
    desktop: Option<String>,
    request: RequestView,
    reply: Result<Seq<char>, Seq<char>>,
)
    requires
        !(stage is Ended),
    ensures
        stage.needs_reply() ==> 0 <= steps_left(
            step_on_reply(stage, compositor, request, reply).0,
        ) < steps_left(stage),
        !stage.needs_reply() ==> 0 <= steps_left(
            step_on_go(stage, compositor, desktop, request).0,
        ) < steps_left(stage),
{
}

/// An output on Hyprland is configured by its name, with the size, the rate and the
/// place that were asked for, at scale one.
pub proof fn outputs_are_configured_as_asked(
    compositor: Compositor,
    desktop: Option<String>,
    r: RequestView,
    restore: Seq<char>,
)
    ensures
        ({
            let (next, action) = step_on_go(StageView::Settling(restore), compositor, desktop, r);
            &&& next == StageView::AwaitRule(restore)
            &&& action matches ActionView::Run(i) && i.program == "hyprctl"@ && i.args.len() == 3
                && i.args[0] == "keyword"@ && i.args[1] == "monitor"@ && i.args[2] == r.name + ","@
                + decimal(r.width as nat) + "x"@ + decimal(r.height as nat) + "@"@ + decimal(
                r.refresh as nat,
            ) + ","@ + signed_decimal(r.x as int) + "x"@ + signed_decimal(r.y as int) + ",1"@
        }),
{
    assert(r.rule() =~= r.name + ","@ + decimal(r.width as nat) + "x"@ + decimal(r.height as nat)
        + "@"@ + decimal(r.refresh as nat) + ","@ + signed_decimal(r.x as int) + "x"@
        + signed_decimal(r.y as int) + ",1"@);
}

/// A Hyprland that takes no rules gets the same as a script: the same name, size,
/// rate and place.
pub proof fn scripts_say_what_rules_say(
    compositor: Compositor,
    r: RequestView,
    restore: Seq<char>,
    out: Seq<char>,
)
    requires
        occurs_in(out, "non-legacy parsers"@),
    ensures
        ({
            let (next, action) = step_on_reply(
                StageView::AwaitRule(restore),
                compositor,
                r,
                Ok::<Seq<char>, Seq<char>>(out),
            );
            &&& next == StageView::AwaitScript(restore)
            &&& action matches ActionView::Run(i) && i.program == "hyprctl"@ && i.args.len() == 2
                && i.args[0] == "eval"@ && i.args[1] == "hl.monitor({ output = "@ + quoted(r.name)
                + ", mode = \""@ + decimal(r.width as nat) + "x"@ + decimal(r.height as nat) + "@"@
                + decimal(r.refresh as nat) + "\", position = \""@ + signed_decimal(r.x as int)
                + "x"@ + signed_decimal(r.y as int) + "\", scale = 1 })"@
        }),
{
    assert(r.script() =~= "hl.monitor({ output = "@ + quoted(r.name) + ", mode = \""@ + decimal(
        r.width as nat,
    ) + "x"@ + decimal(r.height as nat) + "@"@ + decimal(r.refresh as nat) + "\", position = \""@
        + signed_decimal(r.x as int) + "x"@ + signed_decimal(r.y as int) + "\", scale = 1 })"@);
}

/// On Hyprland the layout is read first, and a monitor of the wanted name is made
/// exactly where there is none.
pub proof fn outputs_are_made_where_they_are_missing(
    desktop: Option<String>,
    r: RequestView,
    json: Seq<char>,
    monitors: Seq<MonitorView>,
)
    requires
        monitor_list(json) == Ok::<Seq<MonitorView>, MonitorError>(monitors),
    ensures
        ({
            let first = step_on_go(StageView::Start, Compositor::Hyprland, desktop, r);
            let (next, action) = step_on_reply(
                first.0,
                Compositor::Hyprland,
                r,
                Ok::<Seq<char>, Seq<char>>(json),
            );
            let there = exists|i: int|
                0 <= i < monitors.len() && (#[trigger] monitors[i]).name == r.name;
            &&& first.1 matches ActionView::Run(i) && i.program == "hyprctl"@ && i.args == seq![
                "monitors"@,
                "-j"@,
            ]
            &&& action matches ActionView::Run(i) && i.program == "hyprctl"@ && i.args[0] == if
                there {
                "keyword"@
            } else {
                "output"@
            }
            &&& !there ==> (action matches ActionView::Run(i) && i.args == seq![
                "output"@,
                "create"@,
                "headless"@,
                r.name,
            ])
        }),
{
}

/// Once the output is configured the other monitors get their layout back, each by
/// its own call and in their order, and nothing else is run; then the output is
/// ready under the name that was asked for.
pub proof fn the_rest_is_restored_last(
    compositor: Compositor,
    desktop: Option<String>,
    r: RequestView,
    restore: Seq<char>,
    out: Seq<char>,
)
    ensures
        ({
            let ok = Ok::<Seq<char>, Seq<char>>(out);
            let ruled = step_on_reply(StageView::AwaitRule(restore), compositor, r, ok);
            let scripted = step_on_reply(StageView::AwaitScript(restore), compositor, r, ok);
            let rested = step_on_reply(StageView::AwaitRestore, compositor, r, ok);
            let run = ActionView::Run(
                InvocationView { program: "hyprctl"@, args: seq!["eval"@, restore] },
            );
            &&& !occurs_in(out, "non-legacy parsers"@) ==> ruled == (StageView::AwaitRestore, run)
            &&& scripted == (StageView::AwaitRestore, run)
            &&& rested.0 == StageView::Resting && rested.1 is Sleep
            &&& step_on_go(rested.0, compositor, desktop, r) == (
                StageView::Ended,
                ActionView::Done(OutputView::Owned { compositor, name: r.name }),
            )
        }),
{
}

/// What is restored is the calls for the monitors other than the new one, in their
/// order, with a semicolon between them.
pub proof fn restored_layouts_leave_the_new_output_out(
    monitors: Seq<MonitorView>,
    last: MonitorView,
    name: Seq<char>,
)
    ensures
        restore_calls(Seq::<MonitorView>::empty(), name) == Seq::<Seq<char>>::empty(),
        last.name == name ==> restore_calls(monitors.push(last), name) == restore_calls(
            monitors,
            name,
        ),
        last.name != name ==> restore_calls(monitors.push(last), name) == restore_calls(
            monitors,
            name,
        ).push(crate::daemon::hyprland::restore_call(last)),
{
    assert(monitors.push(last).drop_last() =~= monitors);
}

/// The layout that is restored is the one that was read before anything was
/// changed, whichever way the creation takes.
pub proof fn the_layout_is_carried_along(
    r: RequestView,
    json: Seq<char>,
    monitors: Seq<MonitorView>,
    out: Seq<char>,
    desktop: Option<String>,
)
    requires
        monitor_list(json) == Ok::<Seq<MonitorView>, MonitorError>(monitors),
    ensures
        ({
            let c = Compositor::Hyprland;
            let restore = join_of(restore_calls(monitors, r.name), "; "@);
            let read = step_on_reply(
                StageView::AwaitMonitors,
                c,
                r,
                Ok::<Seq<char>, Seq<char>>(json),
            ).0;
            &&& read == StageView::AwaitRule(restore) || read == StageView::AwaitCreate(restore)
            &&& step_on_reply(
                StageView::AwaitCreate(restore),
                c,
                r,
                Ok::<Seq<char>, Seq<char>>(out),
            ).0 == StageView::Settling(restore)
            &&& step_on_go(StageView::Settling(restore), c, desktop, r).0 == StageView::AwaitRule(
                restore,
            )
        }),
{
}

/// KWin is asked for an output of the name and the size that were asked for, and
/// that is what comes of it.
pub proof fn kwin_outputs_are_asked_for(desktop: Option<String>, r: RequestView)
    ensures
        ({
            let (next, action) = step_on_go(StageView::Start, Compositor::Kwin, desktop, r);
            &&& action matches ActionView::CreatePlasma { name, description: _, width, height }
                && name == r.name && (r.width <= i32::MAX ==> width == r.width) && (r.height
                <= i32::MAX ==> height == r.height)
            &&& step_on_go(next, Compositor::Kwin, desktop, r) == (
                StageView::Ended,
                ActionView::Done(OutputView::Kwin(Some(r.name))),
            )
        }),
{
}

/// On labwc an output is used exactly where it is listed, by the first word of a
/// line; nothing is created.
pub proof fn labwc_outputs_are_looked_up(desktop: Option<String>, r: RequestView, out: Seq<char>)
    ensures
        ({
            let c = Compositor::Labwc;
            let (next, action) = step_on_go(StageView::Start, c, desktop, r);
            let found = step_on_reply(next, c, r, Ok::<Seq<char>, Seq<char>>(out)).1;
            let listed = exists|i: int|
                0 <= i < lines_of(out).len() && words(#[trigger] lines_of(out)[i]).len() > 0
                    && words(lines_of(out)[i])[0] == r.name;
            &&& action matches ActionView::Run(i) && i.program == "wlr-randr"@ && i.args.len() == 0
            &&& listed ==> found == ActionView::Done(
                OutputView::Owned { compositor: c, name: r.name },
            )
            &&& !listed ==> found == ActionView::Fail(CreateErrorView::NoSuchOutput(r.name))
        }),
{
    let all = lines_of(out);
    if output_listed(all, r.name) {
        let i = choose|i: int| 0 <= i < all.len() && line_names(#[trigger] all[i], r.name);
        assert(words(all[i]).len() > 0);
    }
    if exists|i: int|
        0 <= i < all.len() && words(#[trigger] all[i]).len() > 0 && words(all[i])[0] == r.name {
        let i = choose|i: int|
            0 <= i < all.len() && words(#[trigger] all[i]).len() > 0 && words(all[i])[0] == r.name;
        assert(line_names(all[i], r.name));
    }
}

/// The environment points at each compositor by what that compositor sets, and at
/// none by anything else.
pub proof fn environments_point_at_compositors(env: Environment, text: Seq<char>)
    requires
        text == match env.desktop {
            Some(t) => t@,
            None => Seq::<char>::empty(),
        },
    ensures
        env.marks(Compositor::Hyprland) <==> env.hyprland_signature || lowered(text) == lowered(
            "Hyprland"@,
        ),
        env.marks(Compositor::Sway) <==> env.swaysock || lowered(text) == lowered("sway"@),
        env.marks(Compositor::Labwc) <==> lowered(text) == lowered("labwc"@) || lowered(text)
            == lowered("wlroots"@),
        env.marks(Compositor::Kwin) <==> env.kde_full_session || exists|i: int|
            0 <= i < fields_of(text, ':').len() && lowered(#[trigger] fields_of(text, ':')[i])
                == lowered("KDE"@),
        !env.marks(Compositor::Unsupported),
{
    let fields = fields_of(text, ':');
    if lists_name(text, "KDE"@) {
        let i = choose|i: int| 0 <= i < fields.len() && named(#[trigger] fields[i], "KDE"@);
        assert(lowered(fields[i]) == lowered("KDE"@));
    }
    if exists|i: int| 0 <= i < fields.len() && lowered(#[trigger] fields[i]) == lowered("KDE"@) {
        let i = choose|i: int|
            0 <= i < fields.len() && lowered(#[trigger] fields[i]) == lowered("KDE"@);
        assert(named(fields[i], "KDE"@));
    }
}

/// Compositors are looked for in one order, Hyprland, Sway, labwc, KWin; a session
/// can be had on any of them but Sway.
pub proof fn compositors_have_their_order(c: Compositor, desktop: Option<String>)
    ensures
        Compositor::Hyprland.rank() < Compositor::Sway.rank() < Compositor::Labwc.rank()
            < Compositor::Kwin.rank() < Compositor::Unsupported.rank(),
        c.obstacle(desktop) is None <==> c == Compositor::Hyprland || c == Compositor::Labwc || c
            == Compositor::Kwin,
        c.probe_view() is None <==> c == Compositor::Unsupported,
        c.obstacle(desktop) matches Some(SupportErrorView::UnsupportedCompositor(text)) ==> (
        desktop matches Some(t) ==> text == t@),
{
}

/// What was created is removed by the name that it was created under, with the
/// program of its compositor; what was found, or goes with its stream, is left.
pub proof fn outputs_are_removed_by_name(c: Compositor, name: Seq<char>, other: Option<Seq<char>>)
    ensures
        ({
            let removal = (OutputView::Owned { compositor: c, name }).removal();
            &&& c == Compositor::Hyprland ==> (removal matches Some(i) && i.program == "hyprctl"@
                && i.args == seq!["output"@, "remove"@, name])
            &&& c == Compositor::Sway ==> (removal matches Some(i) && i.program == "swaymsg"@
                && i.args == seq!["output"@, name, "unplug"@])
            &&& c == Compositor::Labwc ==> removal is None
        }),
        OutputView::Kwin(other).removal() is None,
{
}

} // verus!
