//! Virtual input devices: what the tablet's touches become.
//!
//! Two device types are supported, matching [`TouchMode`]:
//!
//! - **Touchscreen.** A multitouch (protocol B) screen that the compositor
//!   associates with an output. Tap, drag and long-press all land where the
//!   finger is.
//!
//! - **Pointer.** A relative pointer that behaves like a laptop touchpad.
//!   Finger motion drives the cursor *relatively*, a tap is a left-click, a
//!   long-press without moving is a right-click, and double-tap-then-drag is a
//!   click-drag. No output association is involved anywhere in the path.
//!
//! Events are what the kernel's input layer takes: a type, a code and a value.
//! A batch of events is written in one go, and writing may fail. Points in time
//! are nanoseconds on one monotonic clock.

use vstd::prelude::*;

use crate::protocol::{TouchAction, TouchMessage};

verus! {

/// Coordinates on the touchscreen run from zero to this.
pub const ABS_RANGE: i32 = 32767;

pub const VENDOR_ID: u16 = 0x4d52;

pub const PRODUCT_ID: u16 = 0x4c44;

/// The pointer declares a different product, so that it is seen as a device
/// distinct from the touchscreen.
pub const PRODUCT_ID_POINTER: u16 = 0x4c45;

/// How far, per axis and from where it came down, a finger may drift and still
/// count as a tap: about 2.3% of the surface.
pub const TAP_MAX_MOVE: u32 = 1500;

/// How long a touch must be held without moving before it becomes a
/// right-click.
pub const LONG_PRESS_NS: u64 = 600_000_000;

/// How long after a tap a second touch begins a double-tap drag.
pub const DOUBLE_TAP_WINDOW_NS: u64 = 300_000_000;

// ------------------------------------------------------------------ events ---

pub const EV_SYN: u16 = 0;

pub const EV_KEY: u16 = 1;

pub const EV_REL: u16 = 2;

pub const EV_ABS: u16 = 3;

pub const ABS_X: u16 = 0x00;

pub const ABS_Y: u16 = 0x01;

pub const ABS_MT_SLOT: u16 = 0x2f;

pub const ABS_MT_POSITION_X: u16 = 0x35;

pub const ABS_MT_POSITION_Y: u16 = 0x36;

pub const ABS_MT_TRACKING_ID: u16 = 0x39;

pub const REL_X: u16 = 0x00;

pub const REL_Y: u16 = 0x01;

pub const BTN_LEFT: u16 = 0x110;

pub const BTN_RIGHT: u16 = 0x111;

pub const BTN_MIDDLE: u16 = 0x112;

pub const BTN_TOUCH: u16 = 0x14a;

pub const BUS_VIRTUAL: u16 = 0x06;

pub const PROP_POINTER: u16 = 0x00;

pub const PROP_DIRECT: u16 = 0x01;

/// One event of an input device.
#[derive(Debug, Clone, Copy, PartialEq, Eq, Structural)]
pub struct InputEvent {
    pub kind: u16,
    pub code: u16,
    pub value: i32,
}

pub open spec fn abs_event(axis: u16, value: i32) -> InputEvent {
    InputEvent { kind: EV_ABS, code: axis, value }
}

pub open spec fn key_event(button: u16, value: i32) -> InputEvent {
    InputEvent { kind: EV_KEY, code: button, value }
}

pub open spec fn rel_event(axis: u16, value: i32) -> InputEvent {
    InputEvent { kind: EV_REL, code: axis, value }
}

pub open spec fn syn_event() -> InputEvent {
    InputEvent { kind: EV_SYN, code: 0, value: 0 }
}

fn abs(axis: u16, value: i32) -> (r: InputEvent)
    ensures
        r == abs_event(axis, value),
{
    InputEvent { kind: EV_ABS, code: axis, value }
}

fn key(button: u16, value: i32) -> (r: InputEvent)
    ensures
        r == key_event(button, value),
{
    InputEvent { kind: EV_KEY, code: button, value }
}

fn rel(axis: u16, value: i32) -> (r: InputEvent)
    ensures
        r == rel_event(axis, value),
{
    InputEvent { kind: EV_REL, code: axis, value }
}

fn syn() -> (r: InputEvent)
    ensures
        r == syn_event(),
{
    InputEvent { kind: EV_SYN, code: 0, value: 0 }
}

/// How the virtual input device is declared.
#[derive(Debug, Clone, Copy, PartialEq, Eq, Structural)]
pub enum TouchMode {
    /// A touchscreen that the compositor associates with an output.
    Screen,
    /// A relative pointer, like a laptop touchpad.
    Pointer,
}

/// Message from the reverse-channel reader to the input worker.
///
/// The reader must never block on anything but reading, and writing to the
/// device can block; so the worker writes.
#[derive(Debug, Clone, Copy, PartialEq, Eq, Structural)]
pub enum InputMsg {
    Touch(TouchMessage),
}

// ------------------------------------------------------------- touchscreen ---

/// A coordinate of the tablet on the range of the touchscreen.
pub open spec fn scaled(v: u16) -> i32 {
    (v * ABS_RANGE / 65535) as i32
}

fn scale_to_range(v: u16) -> (r: i32)
    ensures
        r == scaled(v),
        0 <= r <= ABS_RANGE,
{
    assert(v * 32767 <= 65535 * 32767);
    ((v as u32 * ABS_RANGE as u32) / 65535) as i32
}

/// The edges of the tablet are the edges of the touchscreen, and a larger
/// coordinate never comes out smaller.
pub proof fn scaling_keeps_edges_and_order(a: u16, b: u16)
    requires
        a <= b,
    ensures
        scaled(0) == 0,
        scaled(65535) == ABS_RANGE,
        0 <= scaled(a) <= scaled(b) <= ABS_RANGE,
{
}

/// A place on the touchscreen is as far along as the place on the tablet, up to
/// one unit.
pub proof fn scaling_is_proportional(v: u16)
    ensures
        scaled(v) * 65535 <= v * 32767 < (scaled(v) + 1) * 65535,
{
}

/// What is known of the contact on the screen.
#[derive(Debug, Clone, Copy, PartialEq, Eq)]
pub struct Touchscreen {
    pub contact_open: bool,
    pub next_tracking_id: i32,
    pub last_pos: (i32, i32),
}

/// One batch of events, and what is known of the contact from before the batch
/// is written: also when writing it fails.
#[derive(Debug)]
pub struct ScreenStep {
    pub state: Touchscreen,
    pub events: Vec<InputEvent>,
}

/// A step as its events.
pub ghost struct ScreenStepView {
    pub state: Touchscreen,
    pub events: Seq<InputEvent>,
}

impl View for ScreenStep {
    type V = ScreenStepView;

    open spec fn view(&self) -> ScreenStepView {
        ScreenStepView { state: self.state, events: self.events@ }
    }
}

pub open spec fn step_views(steps: Seq<ScreenStep>) -> Seq<ScreenStepView> {
    steps.map_values(|s: ScreenStep| s@)
}

/// Lift the finger at `pos`.
pub open spec fn release_events(pos: (i32, i32)) -> Seq<InputEvent> {
    seq![
        abs_event(ABS_MT_SLOT, 0),
        abs_event(ABS_MT_POSITION_X, pos.0),
        abs_event(ABS_MT_POSITION_Y, pos.1),
        abs_event(ABS_X, pos.0),
        abs_event(ABS_Y, pos.1),
        abs_event(ABS_MT_TRACKING_ID, (-1) as i32),
        key_event(BTN_TOUCH, 0),
        syn_event(),
    ]
}

/// Put the finger down at `pos`, as contact `id`.
pub open spec fn press_events(pos: (i32, i32), id: i32) -> Seq<InputEvent> {
    seq![
        abs_event(ABS_MT_SLOT, 0),
        abs_event(ABS_MT_TRACKING_ID, id),
        abs_event(ABS_MT_POSITION_X, pos.0),
        abs_event(ABS_MT_POSITION_Y, pos.1),
        abs_event(ABS_X, pos.0),
        abs_event(ABS_Y, pos.1),
        key_event(BTN_TOUCH, 1),
        syn_event(),
    ]
}

/// Slide the finger to `pos`.
pub open spec fn slide_events(pos: (i32, i32)) -> Seq<InputEvent> {
    seq![
        abs_event(ABS_MT_POSITION_X, pos.0),
        abs_event(ABS_MT_POSITION_Y, pos.1),
        abs_event(ABS_X, pos.0),
        abs_event(ABS_Y, pos.1),
        syn_event(),
    ]
}

/// The id after `id`; after the last comes the first.
pub open spec fn following_id(id: i32) -> i32 {
    if id >= 65535 {
        1
    } else {
        (id + 1) as i32
    }
}

impl Touchscreen {
    pub open spec fn wf(self) -> bool {
        &&& 1 <= self.next_tracking_id <= 65535
        &&& 0 <= self.last_pos.0 <= ABS_RANGE
        &&& 0 <= self.last_pos.1 <= ABS_RANGE
    }

    /// The finger has been lifted.
    pub open spec fn released(self) -> Touchscreen {
        Touchscreen { contact_open: false, ..self }
    }

    /// The finger has come down at `pos`.
    pub open spec fn pressed(self, pos: (i32, i32)) -> Touchscreen {
        Touchscreen {
            contact_open: true,
            next_tracking_id: following_id(self.next_tracking_id),
            last_pos: pos,
        }
    }

    /// What one touch of the tablet becomes.
    pub open spec fn response(
        self,
        action: TouchAction,
        pos: (i32, i32),
    ) -> Seq<ScreenStepView> {
        match action {
            TouchAction::Down => {
                let press = ScreenStepView {
                    state: self.pressed(pos),
                    events: press_events(pos, self.next_tracking_id),
                };
                if self.contact_open {
                    seq![
                        ScreenStepView {
                            state: self.released(),
                            events: release_events(self.last_pos),
                        },
                        press,
                    ]
                } else {
                    seq![press]
                }
            },
            TouchAction::Move => if self.contact_open {
                seq![
                    ScreenStepView {
                        state: Touchscreen { last_pos: pos, ..self },
                        events: slide_events(pos),
                    },
                ]
            } else {
                Seq::empty()
            },
            TouchAction::Up | TouchAction::Cancel => if self.contact_open {
                let at = if pos != (0i32, 0i32) {
                    pos
                } else {
                    self.last_pos
                };
                seq![
                    ScreenStepView {
                        state: Touchscreen { contact_open: false, last_pos: at, ..self },
                        events: release_events(at),
                    },
                ]
            } else {
                Seq::empty()
            },
        }
    }

    /// No finger on the screen.
    pub fn new() -> (r: Self)
        ensures
            r.wf(),
            r == (Touchscreen { contact_open: false, next_tracking_id: 1, last_pos: (0, 0) }),
    {
        Touchscreen { contact_open: false, next_tracking_id: 1, last_pos: (0, 0) }
    }

    /// The batches that a touch of the tablet becomes. The caller takes over
    /// the state of each step, then writes its events; where writing fails, the
    /// steps after it are dropped.
    pub fn send(&self, action: TouchAction, x: u16, y: u16) -> (r: Vec<ScreenStep>)
        requires
            self.wf(),
        ensures
            step_views(r@) == self.response(action, (scaled(x), scaled(y))),
            forall|i: int| 0 <= i < r@.len() ==> (#[trigger] r@[i]).state.wf(),
    {
        let pos = (scale_to_range(x), scale_to_range(y));
        let mut steps: Vec<ScreenStep> = Vec::new();
        match action {
            TouchAction::Down => {
                let mut state = *self;
                if state.contact_open {
                    state.contact_open = false;
                    steps.push(ScreenStep { state, events: release(state.last_pos) });
                }
                let id: i32 = state.next_tracking_id;
                state.contact_open = true;
                state.last_pos = pos;
                state.next_tracking_id = if id >= 65535 {
                    1
                } else {
                    id + 1
                };
                let events = vec![
                    abs(ABS_MT_SLOT, 0),
                    abs(ABS_MT_TRACKING_ID, id),
                    abs(ABS_MT_POSITION_X, pos.0),
                    abs(ABS_MT_POSITION_Y, pos.1),
                    abs(ABS_X, pos.0),
                    abs(ABS_Y, pos.1),
                    key(BTN_TOUCH, 1),
                    syn(),
                ];
                assert(events@ =~= press_events(pos, id));
                steps.push(ScreenStep { state, events });
            },
            TouchAction::Move => {
                if self.contact_open {
                    let mut state = *self;
                    state.last_pos = pos;
                    let events = vec![
                        abs(ABS_MT_POSITION_X, pos.0),
                        abs(ABS_MT_POSITION_Y, pos.1),
                        abs(ABS_X, pos.0),
                        abs(ABS_Y, pos.1),
                        syn(),
                    ];
                    assert(events@ =~= slide_events(pos));
                    steps.push(ScreenStep { state, events });
                }
            },
            TouchAction::Up | TouchAction::Cancel => {
                if self.contact_open {
                    let mut state = *self;
                    if pos.0 != 0 || pos.1 != 0 {
                        state.last_pos = pos;
                    }
                    state.contact_open = false;
                    steps.push(ScreenStep { state, events: release(state.last_pos) });
                }
            },
        }
        assert(step_views(steps@) =~= self.response(action, (scaled(x), scaled(y))));
        steps
    }
}

fn release(pos: (i32, i32)) -> (r: Vec<InputEvent>)
    ensures
        r@ == release_events(pos),
{
    let events = vec![
        abs(ABS_MT_SLOT, 0),
        abs(ABS_MT_POSITION_X, pos.0),
        abs(ABS_MT_POSITION_Y, pos.1),
        abs(ABS_X, pos.0),
        abs(ABS_Y, pos.1),
        abs(ABS_MT_TRACKING_ID, -1),
        key(BTN_TOUCH, 0),
        syn(),
    ];
    assert(events@ =~= release_events(pos));
    events
}

// ----------------------------------------------------------------- devices ---

/// An absolute axis of a device.
#[derive(Debug, Clone, Copy, PartialEq, Eq, Structural)]
pub struct AbsAxis {
    pub code: u16,
    pub max: i32,
    /// Units per millimetre.
    pub resolution: i32,
}

/// What a virtual device declares of itself.
#[derive(Debug)]
pub struct DeviceSpec {
    pub name: String,
    pub bus: u16,
    pub vendor: u16,
    pub product: u16,
    pub version: u16,
    pub keys: Vec<u16>,
    pub properties: Vec<u16>,
    pub abs_axes: Vec<AbsAxis>,
    pub rel_axes: Vec<u16>,
}

/// The range of the touchscreen over the physical size of so many pixels at 160
/// per inch, in whole units per millimetre: `32767 / (pixels * 25.4 / 160)`.
pub open spec fn resolution_for(pixels: u32) -> i32 {
    if pixels == 0 {
        0
    } else {
        (26_213_600int / (127 * pixels)) as i32
    }
}

fn ppi_resolution(pixels: u32) -> (r: i32)
    ensures
        r == resolution_for(pixels),
{
    if pixels == 0 {
        return 0;
    }
    let divisor: u64 = 127 * pixels as u64;
    let r: u64 = 26_213_600 / divisor;
    assert(r <= 26_213_600) by (nonlinear_arith)
        requires
            r == 26_213_600u64 / divisor,
            divisor >= 1,
    ;
    r as i32
}

/// The axes of a touchscreen for an output of the given size.
pub open spec fn screen_axes(width: u32, height: u32) -> Seq<AbsAxis> {
    seq![
        AbsAxis { code: ABS_X, max: ABS_RANGE, resolution: resolution_for(width) },
        AbsAxis { code: ABS_Y, max: ABS_RANGE, resolution: resolution_for(height) },
        AbsAxis { code: ABS_MT_POSITION_X, max: ABS_RANGE, resolution: resolution_for(width) },
        AbsAxis { code: ABS_MT_POSITION_Y, max: ABS_RANGE, resolution: resolution_for(height) },
        AbsAxis { code: ABS_MT_SLOT, max: 9, resolution: 0 },
        AbsAxis { code: ABS_MT_TRACKING_ID, max: 65535, resolution: 0 },
    ]
}

/// The touchscreen for an output of the given size.
pub fn build(name: &str, width: u32, height: u32) -> (r: DeviceSpec)
    ensures
        r.name@ == name@,
        r.bus == BUS_VIRTUAL && r.vendor == VENDOR_ID && r.product == PRODUCT_ID && r.version == 1,
        r.keys@ == seq![BTN_TOUCH],
        r.properties@ == seq![PROP_DIRECT],
        r.abs_axes@ == screen_axes(width, height),
        r.rel_axes@ == Seq::<u16>::empty(),
{
    let res_x: i32 = ppi_resolution(width);
    let res_y: i32 = ppi_resolution(height);
    let abs_axes = vec![
        AbsAxis { code: ABS_X, max: ABS_RANGE, resolution: res_x },
        AbsAxis { code: ABS_Y, max: ABS_RANGE, resolution: res_y },
        AbsAxis { code: ABS_MT_POSITION_X, max: ABS_RANGE, resolution: res_x },
        AbsAxis { code: ABS_MT_POSITION_Y, max: ABS_RANGE, resolution: res_y },
        AbsAxis { code: ABS_MT_SLOT, max: 9, resolution: 0 },
        AbsAxis { code: ABS_MT_TRACKING_ID, max: 65535, resolution: 0 },
    ];
    let keys: Vec<u16> = vec![BTN_TOUCH];
    let properties: Vec<u16> = vec![PROP_DIRECT];
    assert(abs_axes@ =~= screen_axes(width, height));
    assert(keys@ =~= seq![BTN_TOUCH]);
    assert(properties@ =~= seq![PROP_DIRECT]);
    DeviceSpec {
        name: String::from_str(name),
        bus: BUS_VIRTUAL,
        vendor: VENDOR_ID,
        product: PRODUCT_ID,
        version: 1,
        keys,
        properties,
        abs_axes,
        rel_axes: Vec::new(),
    }
}

/// The pointer. It drives a cursor rather than a touch surface, so that its
/// events are ordinary pointer motion.
pub fn build_pointer(name: &str) -> (r: DeviceSpec)
    ensures
        r.name@ == name@,
        r.bus == BUS_VIRTUAL && r.vendor == VENDOR_ID && r.product == PRODUCT_ID_POINTER
            && r.version == 1,
        r.keys@ == seq![BTN_LEFT, BTN_RIGHT, BTN_MIDDLE],
        r.properties@ == seq![PROP_POINTER],
        r.abs_axes@ == Seq::<AbsAxis>::empty(),
        r.rel_axes@ == seq![REL_X, REL_Y],
{
    let keys: Vec<u16> = vec![BTN_LEFT, BTN_RIGHT, BTN_MIDDLE];
    let properties: Vec<u16> = vec![PROP_POINTER];
    let rel_axes: Vec<u16> = vec![REL_X, REL_Y];
    assert(keys@ =~= seq![BTN_LEFT, BTN_RIGHT, BTN_MIDDLE]);
    assert(properties@ =~= seq![PROP_POINTER]);
    assert(rel_axes@ =~= seq![REL_X, REL_Y]);
    DeviceSpec {
        name: String::from_str(name),
        bus: BUS_VIRTUAL,
        vendor: VENDOR_ID,
        product: PRODUCT_ID_POINTER,
        version: 1,
        keys,
        properties,
        abs_axes: Vec::new(),
        rel_axes,
    }
}

// ----------------------------------------------------------------- pointer ---

/// Where one gesture in pointer mode stands.
#[derive(Debug, Clone, Copy, PartialEq, Eq, Structural)]
pub enum PointerState {
    /// No finger down.
    Idle,
    /// Finger down. Tap or cursor move is decided on release.
    Touched {
        down_at: u64,
        down_x: u16,
        down_y: u16,
        last_x: u16,
        last_y: u16,
        /// The release before was a tap just now: moving past
        /// [`TAP_MAX_MOVE`] makes this a click-drag.
        pending_drag: bool,
        /// The finger has strayed beyond [`TAP_MAX_MOVE`] at some time.
        moved: bool,
    },
    /// Left button is held; motion continues until release.
    Dragging { last_x: u16, last_y: u16 },
    /// A long-press has clicked already. Movement is ignored until release.
    Consumed,
}

/// A relative pointer that behaves like a laptop touchpad.
#[derive(Debug, Clone, Copy, PartialEq, Eq, Structural)]
pub struct PointerInput {
    pub state: PointerState,
    /// Time of the last tap release, for double-tap detection.
    pub last_tap_end: Option<u64>,
}

/// What follows once every batch of a plan has been written.
#[derive(Debug, Clone, Copy, PartialEq, Eq, Structural)]
pub enum Completion {
    /// Nothing more.
    Keep,
    /// The gesture moves on.
    Become(PointerState),
    /// A tap has ended.
    Tapped,
    /// A gesture other than a tap has ended.
    Forget,
    /// The long-press has clicked.
    LongPressed,
    /// All is released.
    Cancelled,
}

/// When the fraction of a pixel that motion has left over is dropped.
#[derive(Debug, Clone, Copy, PartialEq, Eq, Structural)]
pub enum Residual {
    Keep,
    /// At once.
    ClearNow,
    /// Once every batch has been written.
    ClearAfter,
}

/// What to write for a touch in pointer mode.
#[derive(Debug)]
pub struct PointerPlan {
    /// Batches to write, in order.
    pub batches: Vec<Vec<InputEvent>>,
    /// Finger motion to turn into cursor motion: from where, and to where.
    pub motion: Option<((u16, u16), (u16, u16))>,
    pub residual: Residual,
    pub completion: Completion,
}

/// A plan as its events.
pub ghost struct PlanView {
    pub batches: Seq<Seq<InputEvent>>,
    pub motion: Option<((u16, u16), (u16, u16))>,
    pub residual: Residual,
    pub completion: Completion,
}

pub open spec fn batch_views(v: Seq<Vec<InputEvent>>) -> Seq<Seq<InputEvent>> {
    v.map_values(|b: Vec<InputEvent>| b@)
}

impl View for PointerPlan {
    type V = PlanView;

    open spec fn view(&self) -> PlanView {
        PlanView {
            batches: batch_views(self.batches@),
            motion: self.motion,
            residual: self.residual,
            completion: self.completion,
        }
    }
}

/// A plan that writes nothing.
pub open spec fn silent(completion: Completion) -> PlanView {
    PlanView { batches: Seq::empty(), motion: None, residual: Residual::Keep, completion }
}

/// Press or let go of a button.
pub open spec fn button(code: u16, value: i32) -> Seq<InputEvent> {
    seq![key_event(code, value), syn_event()]
}

pub open spec fn distance(a: u16, b: u16) -> int {
    if a >= b {
        a - b
    } else {
        b - a
    }
}

/// Whether the finger is too far from where it came down for a tap.
pub open spec fn strayed(down_x: u16, down_y: u16, x: u16, y: u16) -> bool {
    distance(x, down_x) > TAP_MAX_MOVE || distance(y, down_y) > TAP_MAX_MOVE
}

fn has_strayed(down_x: u16, down_y: u16, x: u16, y: u16) -> (r: bool)
    ensures
        r == strayed(down_x, down_y, x, y),
{
    let dx: u32 = if x >= down_x {
        (x - down_x) as u32
    } else {
        (down_x - x) as u32
    };
    let dy: u32 = if y >= down_y {
        (y - down_y) as u32
    } else {
        (down_y - y) as u32
    };
    dx > TAP_MAX_MOVE || dy > TAP_MAX_MOVE
}

fn press(code: u16, value: i32) -> (r: Vec<InputEvent>)
    ensures
        r@ == button(code, value),
{
    let events = vec![key(code, value), syn()];
    assert(events@ =~= button(code, value));
    events
}

fn plan_silent(completion: Completion) -> (r: PointerPlan)
    ensures
        r@ == silent(completion),
{
    let batches: Vec<Vec<InputEvent>> = Vec::new();
    assert(batch_views(batches@) =~= Seq::<Seq<InputEvent>>::empty());
    PointerPlan { batches, motion: None, residual: Residual::Keep, completion }
}

fn plan_one(events: Vec<InputEvent>, completion: Completion) -> (r: PointerPlan)
    ensures
        r@ == (PlanView { batches: seq![events@], ..silent(completion) }),
{
    let mut batches: Vec<Vec<InputEvent>> = Vec::new();
    batches.push(events);
    assert(batch_views(batches@) =~= seq![events@]);
    PointerPlan { batches, motion: None, residual: Residual::Keep, completion }
}

fn plan_click(code: u16, completion: Completion) -> (r: PointerPlan)
    ensures
        r@ == (PlanView { batches: seq![button(code, 1), button(code, 0)], ..silent(completion) }),
{
    let mut batches: Vec<Vec<InputEvent>> = Vec::new();
    batches.push(press(code, 1));
    batches.push(press(code, 0));
    assert(batch_views(batches@) =~= seq![button(code, 1), button(code, 0)]);
    PointerPlan { batches, motion: None, residual: Residual::Keep, completion }
}

impl PointerInput {
    pub fn new() -> (r: Self)
        ensures
            r == (PointerInput { state: PointerState::Idle, last_tap_end: None }),
    {
        PointerInput { state: PointerState::Idle, last_tap_end: None }
    }

    /// Whether a touch now would continue a tap.
    pub open spec fn double_tap(self, now: u64) -> bool {
        self.last_tap_end matches Some(t) && now - t < DOUBLE_TAP_WINDOW_NS
    }

    /// The finger comes down.
    pub open spec fn down(self, x: u16, y: u16, now: u64) -> (PointerInput, PlanView) {
        (
            PointerInput {
                state: PointerState::Touched {
                    down_at: now,
                    down_x: x,
                    down_y: y,
                    last_x: x,
                    last_y: y,
                    pending_drag: self.double_tap(now),
                    moved: false,
                },
                ..self
            },
            PlanView { residual: Residual::ClearNow, ..silent(Completion::Keep) },
        )
    }

    /// The finger moves. A pending double-tap becomes a drag as soon as the
    /// finger has moved far enough to be unambiguous; otherwise the cursor
    /// follows.
    pub open spec fn slide(self, x: u16, y: u16) -> (PointerInput, PlanView) {
        match self.state {
            PointerState::Idle | PointerState::Consumed => (self, silent(Completion::Keep)),
            PointerState::Touched { down_at, down_x, down_y, last_x, last_y, pending_drag, moved } => {
                let now_moved = moved || strayed(down_x, down_y, x, y);
                if pending_drag && now_moved {
                    (
                        self,
                        PlanView {
                            batches: seq![button(BTN_LEFT, 1)],
                            ..silent(
                                Completion::Become(
                                    PointerState::Dragging { last_x: x, last_y: y },
                                ),
                            )
                        },
                    )
                } else {
                    (
                        self,
                        PlanView {
                            motion: Some(((last_x, last_y), (x, y))),
                            ..silent(
                                Completion::Become(
                                    PointerState::Touched {
                                        down_at,
                                        down_x,
                                        down_y,
                                        last_x: x,
                                        last_y: y,
                                        pending_drag,
                                        moved: now_moved,
                                    },
                                ),
                            )
                        },
                    )
                }
            },
            PointerState::Dragging { last_x, last_y } => (
                self,
                PlanView {
                    motion: Some(((last_x, last_y), (x, y))),
                    ..silent(
                        Completion::Become(PointerState::Dragging { last_x: x, last_y: y }),
                    )
                },
            ),
        }
    }

    /// The finger is lifted. The gesture is over at once, whatever becomes of
    /// the events.
    pub open spec fn up(self, x: u16, y: u16) -> (PointerInput, PlanView) {
        let idle = PointerInput { state: PointerState::Idle, ..self };
        match self.state {
            PointerState::Touched { down_x, down_y, moved, .. } => if moved || strayed(
                down_x,
                down_y,
                x,
                y,
            ) {
                (idle, silent(Completion::Forget))
            } else {
                (
                    idle,
                    PlanView {
                        batches: seq![button(BTN_LEFT, 1), button(BTN_LEFT, 0)],
                        ..silent(Completion::Tapped)
                    },
                )
            },
            PointerState::Dragging { .. } => (
                idle,
                PlanView { batches: seq![button(BTN_LEFT, 0)], ..silent(Completion::Forget) },
            ),
            _ => (idle, silent(Completion::Forget)),
        }
    }

    /// A touch of the tablet.
    pub open spec fn touched(
        self,
        action: TouchAction,
        x: u16,
        y: u16,
        now: u64,
    ) -> (PointerInput, PlanView) {
        match action {
            TouchAction::Down => self.down(x, y, now),
            TouchAction::Move => self.slide(x, y),
            TouchAction::Up | TouchAction::Cancel => self.up(x, y),
        }
    }

    /// The touch has been held for long enough. The click lands where the
    /// cursor is.
    pub open spec fn long_pressed(self) -> PlanView {
        if self.state is Touched {
            PlanView {
                batches: seq![button(BTN_RIGHT, 1), button(BTN_RIGHT, 0)],
                ..silent(Completion::LongPressed)
            }
        } else {
            silent(Completion::Keep)
        }
    }

    /// Let go of everything.
    pub open spec fn cancelling(self) -> PlanView {
        let done = PlanView {
            residual: Residual::ClearAfter,
            ..silent(Completion::Cancelled)
        };
        if self.state is Dragging {
            PlanView { batches: seq![button(BTN_LEFT, 0)], ..done }
        } else {
            done
        }
    }

    /// After every batch of a plan has been written.
    pub open spec fn completed(self, completion: Completion, now: u64) -> PointerInput {
        match completion {
            Completion::Keep => self,
            Completion::Become(state) => PointerInput { state, ..self },
            Completion::Tapped => PointerInput { last_tap_end: Some(now), ..self },
            Completion::Forget => PointerInput { last_tap_end: None, ..self },
            Completion::LongPressed => PointerInput {
                state: PointerState::Consumed,
                last_tap_end: None,
            },
            Completion::Cancelled => PointerInput {
                state: PointerState::Idle,
                last_tap_end: None,
            },
        }
    }

    /// How long a touch that is held and has not moved must still be held to
    /// become a long-press.
    pub open spec fn long_press_in(self, now: u64) -> Option<u64> {
        match self.state {
            PointerState::Touched { down_at, moved: false, .. } => Some(
                if now <= down_at {
                    LONG_PRESS_NS
                } else if now - down_at >= LONG_PRESS_NS {
                    0
                } else {
                    (LONG_PRESS_NS - (now - down_at)) as u64
                },
            ),
            _ => None,
        }
    }

    /// Time until a held, *stationary* touch becomes a long-press. `None` when
    /// no touch is held or the finger has moved too far for one.
    pub fn time_until_long_press(&self, now: u64) -> (r: Option<u64>)
        ensures
            r == self.long_press_in(now),
    {
        match self.state {
            PointerState::Touched { down_at, moved, .. } => {
                if moved {
                    return None;
                }
                let held: u64 = now.saturating_sub(down_at);
                Some(LONG_PRESS_NS.saturating_sub(held))
            },
            _ => None,
        }
    }

    /// Take in a touch of the tablet.
    pub fn on_touch(&mut self, action: TouchAction, x: u16, y: u16, now: u64) -> (r: PointerPlan)
        ensures
            (*final(self), r@) == old(self).touched(action, x, y, now),
    {
        match action {
            TouchAction::Down => self.on_down(x, y, now),
            TouchAction::Move => self.on_move(x, y),
            TouchAction::Up => self.on_up(x, y),
            TouchAction::Cancel => self.on_up(x, y),
        }
    }

    /// Take in that the touch has been held for long enough.
    pub fn on_long_press(&self) -> (r: PointerPlan)
        ensures
            r@ == self.long_pressed(),
    {
        match self.state {
            PointerState::Touched { .. } => plan_click(BTN_RIGHT, Completion::LongPressed),
            _ => plan_silent(Completion::Keep),
        }
    }

    /// Release any held button and return to idle. Called on teardown.
    pub fn cancel(&self) -> (r: PointerPlan)
        ensures
            r@ == self.cancelling(),
    {
        let mut plan = match self.state {
            PointerState::Dragging { .. } => plan_one(press(BTN_LEFT, 0), Completion::Cancelled),
            _ => plan_silent(Completion::Cancelled),
        };
        plan.residual = Residual::ClearAfter;
        plan
    }

    /// Take note that every batch of a plan has been written.
    pub fn complete(&mut self, completion: Completion, now: u64)
        ensures
            *final(self) == old(self).completed(completion, now),
    {
        match completion {
            Completion::Keep => {},
            Completion::Become(state) => {
                self.state = state;
            },
            Completion::Tapped => {
                self.last_tap_end = Some(now);
            },
            Completion::Forget => {
                self.last_tap_end = None;
            },
            Completion::LongPressed => {
                self.state = PointerState::Consumed;
                self.last_tap_end = None;
            },
            Completion::Cancelled => {
                self.state = PointerState::Idle;
                self.last_tap_end = None;
            },
        }
    }

    fn on_down(&mut self, x: u16, y: u16, now: u64) -> (r: PointerPlan)
        ensures
            (*final(self), r@) == old(self).down(x, y, now),
    {
        let pending_drag = match self.last_tap_end {
            Some(t) => now.saturating_sub(t) < DOUBLE_TAP_WINDOW_NS,
            None => false,
        };
        self.state = PointerState::Touched {
            down_at: now,
            down_x: x,
            down_y: y,
            last_x: x,
            last_y: y,
            pending_drag,
            moved: false,
        };
        let mut plan = plan_silent(Completion::Keep);
        plan.residual = Residual::ClearNow;
        plan
    }

    fn on_move(&mut self, x: u16, y: u16) -> (r: PointerPlan)
        ensures
            (*final(self), r@) == old(self).slide(x, y),
    {
        match self.state {
            PointerState::Idle => plan_silent(Completion::Keep),
            PointerState::Consumed => plan_silent(Completion::Keep),
            PointerState::Touched { down_at, down_x, down_y, last_x, last_y, pending_drag, moved } => {
                let now_moved = moved || has_strayed(down_x, down_y, x, y);
                if pending_drag && now_moved {
                    return plan_one(
                        press(BTN_LEFT, 1),
                        Completion::Become(PointerState::Dragging { last_x: x, last_y: y }),
                    );
                }
                let mut plan = plan_silent(
                    Completion::Become(
                        PointerState::Touched {
                            down_at,
                            down_x,
                            down_y,
                            last_x: x,
                            last_y: y,
                            pending_drag,
                            moved: now_moved,
                        },
                    ),
                );
                plan.motion = Some(((last_x, last_y), (x, y)));
                plan
            },
            PointerState::Dragging { last_x, last_y } => {
                let mut plan = plan_silent(
                    Completion::Become(PointerState::Dragging { last_x: x, last_y: y }),
                );
                plan.motion = Some(((last_x, last_y), (x, y)));
                plan
            },
        }
    }

    fn on_up(&mut self, x: u16, y: u16) -> (r: PointerPlan)
        ensures
            (*final(self), r@) == old(self).up(x, y),
    {
        let prev = self.state;
        self.state = PointerState::Idle;
        match prev {
            PointerState::Touched { down_x, down_y, moved, .. } => {
                if moved || has_strayed(down_x, down_y, x, y) {
                    return plan_silent(Completion::Forget);
                }
                plan_click(BTN_LEFT, Completion::Tapped)
            },
            PointerState::Dragging { .. } => plan_one(press(BTN_LEFT, 0), Completion::Forget),
            PointerState::Consumed => plan_silent(Completion::Forget),
            PointerState::Idle => plan_silent(Completion::Forget),
        }
    }
}

/// Cursor motion as events: both axes in one batch, so that the cursor does not
/// trace an L-shape, and nothing where it stays.
pub open spec fn motion_events(dx: i32, dy: i32) -> Seq<InputEvent> {
    if dx == 0 && dy == 0 {
        Seq::empty()
    } else if dy == 0 {
        seq![rel_event(REL_X, dx), syn_event()]
    } else if dx == 0 {
        seq![rel_event(REL_Y, dy), syn_event()]
    } else {
        seq![rel_event(REL_X, dx), rel_event(REL_Y, dy), syn_event()]
    }
}

/// The batch that moves the cursor by so many pixels; empty where there is
/// nothing to write.
pub fn emit_relative(dx: i32, dy: i32) -> (r: Vec<InputEvent>)
    ensures
        r@ == motion_events(dx, dy),
{
    let mut events: Vec<InputEvent> = Vec::new();
    if dx == 0 && dy == 0 {
        assert(events@ =~= motion_events(dx, dy));
        return events;
    }
    if dx != 0 {
        events.push(rel(REL_X, dx));
    }
    if dy != 0 {
        events.push(rel(REL_Y, dy));
    }
    events.push(syn());
    assert(events@ =~= motion_events(dx, dy));
    events
}

// -------------------------------------------------------------- dispatcher ---

/// Either input device.
#[derive(Debug, Clone, Copy, PartialEq, Eq)]
pub enum TouchInput {
    Screen(Touchscreen),
    Pointer(PointerInput),
}

/// What to write for a touch, on either device.
#[derive(Debug)]
pub enum TouchPlan {
    Screen(Vec<ScreenStep>),
    Pointer(PointerPlan),
}

/// What the worker waits for.
#[derive(Debug, Clone, Copy, PartialEq, Eq, Structural)]
pub enum WorkerEvent {
    Message(InputMsg),
    /// The wait is over with no message.
    Timeout,
    /// No message will come any more.
    Disconnected,
}

/// What the worker does next.
#[derive(Debug)]
pub enum WorkerStep {
    /// Write this, then wait again.
    Write(TouchPlan),
    /// Write this, then end.
    Finish(TouchPlan),
}

impl TouchInput {
    pub open spec fn wf(self) -> bool {
        self matches TouchInput::Screen(screen) ==> screen.wf()
    }

    pub fn new_screen() -> (r: Self)
        ensures
            r.wf(),
            r matches TouchInput::Screen(s) && s == (Touchscreen {
                contact_open: false,
                next_tracking_id: 1,
                last_pos: (0, 0),
            }),
    {
        TouchInput::Screen(Touchscreen::new())
    }

    pub fn new_pointer() -> (r: Self)
        ensures
            r.wf(),
            r matches TouchInput::Pointer(p) && p == (PointerInput {
                state: PointerState::Idle,
                last_tap_end: None,
            }),
    {
        TouchInput::Pointer(PointerInput::new())
    }

    /// Time until a held touch becomes a long-press, if the mode has that
    /// concept. The touchscreen does not: the compositor does its own timing.
    pub fn time_until_long_press(&self, now: u64) -> (r: Option<u64>)
        ensures
            self is Screen ==> r is None,
            self matches TouchInput::Pointer(p) ==> r == p.long_press_in(now),
    {
        match self {
            TouchInput::Pointer(p) => p.time_until_long_press(now),
            TouchInput::Screen(_) => None,
        }
    }

    /// What a touch becomes. A pointer has then taken it in; a touchscreen
    /// takes over the state of each step as it is written.
    pub open spec fn sends(
        self,
        action: TouchAction,
        x: u16,
        y: u16,
        now: u64,
        after: TouchInput,
        plan: TouchPlan,
    ) -> bool {
        match self {
            TouchInput::Screen(screen) => {
                &&& after == self
                &&& plan matches TouchPlan::Screen(steps) && step_views(steps@) == screen.response(
                    action,
                    (scaled(x), scaled(y)),
                )
            },
            TouchInput::Pointer(p) => {
                &&& after matches TouchInput::Pointer(q) && plan matches TouchPlan::Pointer(made)
                    && (q, made@) == p.touched(action, x, y, now)
            },
        }
    }

    pub fn send(&mut self, action: TouchAction, x: u16, y: u16, now: u64) -> (r: TouchPlan)
        requires
            old(self).wf(),
        ensures
            final(self).wf(),
            old(self).sends(action, x, y, now, *final(self), r),
    {
        match self {
            TouchInput::Screen(screen) => TouchPlan::Screen(screen.send(action, x, y)),
            TouchInput::Pointer(p) => TouchPlan::Pointer(p.on_touch(action, x, y, now)),
        }
    }

    /// What holding a touch for long enough becomes.
    pub fn long_press(&self) -> (r: TouchPlan)
        ensures
            self is Screen ==> (r matches TouchPlan::Screen(steps) && steps@.len() == 0),
            self matches TouchInput::Pointer(p) ==> (r matches TouchPlan::Pointer(made) && made@
                == p.long_pressed()),
    {
        match self {
            TouchInput::Pointer(p) => TouchPlan::Pointer(p.on_long_press()),
            TouchInput::Screen(_) => TouchPlan::Screen(Vec::new()),
        }
    }

    /// What letting go of everything becomes.
    pub fn cancel(&self) -> (r: TouchPlan)
        requires
            self.wf(),
        ensures
            self matches TouchInput::Screen(screen) ==> (r matches TouchPlan::Screen(steps)
                && step_views(steps@) == screen.response(TouchAction::Cancel, (0, 0))),
            self matches TouchInput::Pointer(p) ==> (r matches TouchPlan::Pointer(made) && made@
                == p.cancelling()),
    {
        match self {
            TouchInput::Screen(screen) => {
                TouchPlan::Screen(screen.send(TouchAction::Cancel, 0, 0))
            },
            TouchInput::Pointer(p) => TouchPlan::Pointer(p.cancel()),
        }
    }

    /// What the worker does about what it waited for. The wait lasts for
    /// [`TouchInput::time_until_long_press`], or without limit where that is
    /// `None`.
    pub fn run_touch_worker(&mut self, event: WorkerEvent, now: u64) -> (r: WorkerStep)
        requires
            old(self).wf(),
        ensures
            final(self).wf(),
            match event {
                WorkerEvent::Message(InputMsg::Touch(t)) => r matches WorkerStep::Write(plan)
                    && old(self).sends(t.action, t.x, t.y, now, *final(self), plan),
                WorkerEvent::Timeout => *final(self) == *old(self) && (r matches WorkerStep::Write(
                    plan,
                ) && match *old(self) {
                    TouchInput::Screen(_) => plan matches TouchPlan::Screen(steps) && steps@.len()
                        == 0,
                    TouchInput::Pointer(p) => plan matches TouchPlan::Pointer(made) && made@
                        == p.long_pressed(),
                }),
                WorkerEvent::Disconnected => *final(self) == *old(self) && (r matches
                    WorkerStep::Finish(plan) && match *old(self) {
                    TouchInput::Screen(screen) => plan matches TouchPlan::Screen(steps)
                        && step_views(steps@) == screen.response(TouchAction::Cancel, (0, 0)),
                    TouchInput::Pointer(p) => plan matches TouchPlan::Pointer(made) && made@
                        == p.cancelling(),
                }),
            },
    {
        match event {
            WorkerEvent::Message(InputMsg::Touch(t)) => WorkerStep::Write(
                self.send(t.action, t.x, t.y, now),
            ),
            WorkerEvent::Timeout => WorkerStep::Write(self.long_press()),
            WorkerEvent::Disconnected => WorkerStep::Finish(self.cancel()),
        }
    }
}

// -------------------------------------------------------------------- laws ---

/// Whether a button is down after a batch, given whether it was down before.
pub open spec fn button_after(code: u16, was_down: bool, events: Seq<InputEvent>) -> bool
    decreases events.len(),
{
    if events.len() == 0 {
        was_down
    } else {
        let e = events.last();
        if e.kind == EV_KEY && e.code == code {
            e.value != 0
        } else {
            button_after(code, was_down, events.drop_last())
        }
    }
}

/// The same after several batches.
pub open spec fn button_after_all(
    code: u16,
    was_down: bool,
    batches: Seq<Seq<InputEvent>>,
) -> bool
    decreases batches.len(),
{
    if batches.len() == 0 {
        was_down
    } else {
        button_after(
            code,
            button_after_all(code, was_down, batches.drop_last()),
            batches.last(),
        )
    }
}

proof fn lemma_button(code: u16, was_down: bool, pressed_code: u16, value: i32)
    ensures
        button_after(code, was_down, button(pressed_code, value)) == (if code == pressed_code {
            value != 0
        } else {
            was_down
        }),
{
    let events = button(pressed_code, value);
    reveal_with_fuel(button_after, 3);
    assert(events.drop_last() =~= seq![key_event(pressed_code, value)]);
    assert(events.drop_last().drop_last() =~= Seq::<InputEvent>::empty());
}

/// The left button is held exactly while a drag lasts, and no other button is
/// left down: whatever touches come, a plan that is written in full keeps the
/// buttons in step with the gesture.
pub proof fn buttons_follow_the_gesture(
    p: PointerInput,
    action: TouchAction,
    x: u16,
    y: u16,
    now: u64,
    done: u64,
)
    ensures
        ({
            let (during, plan) = p.touched(action, x, y, now);
            let after = during.completed(plan.completion, done);
            &&& action != TouchAction::Down || !(p.state is Dragging) ==> button_after_all(
                BTN_LEFT,
                p.state is Dragging,
                plan.batches,
            ) == (after.state is Dragging)
            &&& button_after_all(BTN_RIGHT, false, plan.batches) == false
        }),
        ({
            let after = p.completed(p.long_pressed().completion, done);
            &&& button_after_all(BTN_LEFT, p.state is Dragging, p.long_pressed().batches) == (
            after.state is Dragging)
            &&& !button_after_all(BTN_RIGHT, false, p.long_pressed().batches)
        }),
        !button_after_all(BTN_LEFT, p.state is Dragging, p.cancelling().batches),
{
    reveal_with_fuel(button_after_all, 3);
    lemma_button(BTN_LEFT, false, BTN_LEFT, 1);
    lemma_button(BTN_LEFT, true, BTN_LEFT, 0);
    lemma_button(BTN_LEFT, false, BTN_LEFT, 0);
    lemma_button(BTN_RIGHT, false, BTN_LEFT, 1);
    lemma_button(BTN_RIGHT, false, BTN_LEFT, 0);
    lemma_button(BTN_RIGHT, false, BTN_RIGHT, 1);
    lemma_button(BTN_RIGHT, true, BTN_RIGHT, 0);
    lemma_button(BTN_LEFT, false, BTN_RIGHT, 1);
    lemma_button(BTN_LEFT, false, BTN_RIGHT, 0);
    lemma_button(BTN_LEFT, true, BTN_RIGHT, 1);
    lemma_button(BTN_LEFT, true, BTN_RIGHT, 0);
    let one = seq![button(BTN_LEFT, 0)];
    let press_one = seq![button(BTN_LEFT, 1)];
    let click = seq![button(BTN_LEFT, 1), button(BTN_LEFT, 0)];
    let right = seq![button(BTN_RIGHT, 1), button(BTN_RIGHT, 0)];
    assert(one.drop_last() =~= Seq::<Seq<InputEvent>>::empty());
    assert(press_one.drop_last() =~= Seq::<Seq<InputEvent>>::empty());
    assert(click.drop_last() =~= press_one);
    assert(right.drop_last() =~= seq![button(BTN_RIGHT, 1)]);
    assert(right.drop_last().drop_last() =~= Seq::<Seq<InputEvent>>::empty());
}

/// A finger that has moved away clicks nothing, not even when it comes back.
pub proof fn moved_finger_does_not_click(
    p: PointerInput,
    x: u16,
    y: u16,
    up_x: u16,
    up_y: u16,
    done: u64,
)
    requires
        p.state matches PointerState::Touched { down_x, down_y, pending_drag, .. } && !pending_drag
            && strayed(down_x, down_y, x, y),
    ensures
        ({
            let (during, plan) = p.slide(x, y);
            let after = during.completed(plan.completion, done);
            &&& after.state matches PointerState::Touched { moved: true, .. }
            &&& after.up(up_x, up_y).1.batches.len() == 0
        }),
{
}

/// A quick touch that stays where it is clicks once.
pub proof fn still_finger_clicks_once(p: PointerInput, x: u16, y: u16, now: u64)
    ensures
        ({
            let down = p.down(x, y, now).0;
            down.up(x, y).1.batches == seq![button(BTN_LEFT, 1), button(BTN_LEFT, 0)]
        }),
{
}

/// A tap, then a touch soon after that moves, presses the left button and holds
/// it until the finger is lifted.
pub proof fn double_tap_drags(
    p: PointerInput,
    tap_end: u64,
    now: u64,
    x: u16,
    y: u16,
    to_x: u16,
    to_y: u16,
    end_x: u16,
    end_y: u16,
    done: u64,
)
    requires
        tap_end <= now < tap_end + DOUBLE_TAP_WINDOW_NS,
        strayed(x, y, to_x, to_y),
    ensures
        ({
            let tapped = p.completed(Completion::Tapped, tap_end);
            let (down, _) = tapped.down(x, y, now);
            let (sliding, press_plan) = down.slide(to_x, to_y);
            let dragging = sliding.completed(press_plan.completion, done);
            &&& press_plan.batches == seq![button(BTN_LEFT, 1)]
            &&& dragging.state is Dragging
            &&& dragging.up(end_x, end_y).1.batches == seq![button(BTN_LEFT, 0)]
        }),
{
}

/// After every step, also one whose events could not be written, what is known
/// of the screen agrees with the last events: the finger is reported down
/// exactly while a contact is open.
pub proof fn screen_contact_follows_touch(
    s: Touchscreen,
    action: TouchAction,
    x: u16,
    y: u16,
    i: int,
)
    requires
        s.wf(),
        0 <= i < s.response(action, (scaled(x), scaled(y))).len(),
    ensures
        ({
            let steps = s.response(action, (scaled(x), scaled(y)));
            let before = if i == 0 {
                s.contact_open
            } else {
                steps[i - 1].state.contact_open
            };
            &&& button_after(BTN_TOUCH, before, steps[i].events) == steps[i].state.contact_open
            &&& steps[i].events.last() == syn_event()
            &&& steps[i].state.wf()
        }),
{
    let steps = s.response(action, (scaled(x), scaled(y)));
    let e = steps[i].events;
    let before = if i == 0 {
        s.contact_open
    } else {
        steps[i - 1].state.contact_open
    };
    scaling_keeps_edges_and_order(x, x);
    scaling_keeps_edges_and_order(y, y);
    reveal_with_fuel(button_after, 9);
    let d1 = e.drop_last();
    let d2 = d1.drop_last();
    let d3 = d2.drop_last();
    let d4 = d3.drop_last();
    let d5 = d4.drop_last();
    assert(button_after(BTN_TOUCH, before, e) == button_after(BTN_TOUCH, before, d1));
    if e.len() == 5 {
        assert(d5.len() == 0);
        assert(button_after(BTN_TOUCH, before, d5) == before);
        assert(button_after(BTN_TOUCH, before, d4) == before);
        assert(button_after(BTN_TOUCH, before, d3) == before);
        assert(button_after(BTN_TOUCH, before, d2) == before);
        assert(button_after(BTN_TOUCH, before, d1) == before);
    } else {
        assert(d1.last() == e[6]);
    }
}

/// Moving or lifting a finger that is not down does nothing.
pub proof fn no_contact_no_events(s: Touchscreen, action: TouchAction, pos: (i32, i32))
    requires
        !s.contact_open,
        action != TouchAction::Down,
    ensures
        s.response(action, pos).len() == 0,
{
}

/// Two contacts in a row never have the same id.
pub proof fn contact_ids_differ(s: Touchscreen, a: (i32, i32))
    requires
        s.wf(),
    ensures
        s.pressed(a).next_tracking_id != s.next_tracking_id,
        1 <= s.pressed(a).next_tracking_id <= 65535,
{
}

/// Whether a contact is open after some events; nothing where one is opened
/// while another is, or closed while none is.
pub open spec fn contact_after(open: bool, events: Seq<InputEvent>) -> Option<bool>
    decreases events.len(),
{
    if events.len() == 0 {
        Some(open)
    } else {
        let e = events.last();
        match contact_after(open, events.drop_last()) {
            Some(was) => if e.kind == EV_ABS && e.code == ABS_MT_TRACKING_ID {
                let opens = e.value != -1;
                if was == opens {
                    None
                } else {
                    Some(opens)
                }
            } else {
                Some(was)
            },
            None => None,
        }
    }
}

/// The events of some steps, one after the other.
pub open spec fn step_events(steps: Seq<ScreenStepView>) -> Seq<InputEvent>
    decreases steps.len(),
{
    if steps.len() == 0 {
        Seq::empty()
    } else {
        step_events(steps.drop_last()) + steps.last().events
    }
}

/// A screen after some touches that were all written, and everything that was.
pub open spec fn screen_run(
    s: Touchscreen,
    touches: Seq<(TouchAction, u16, u16)>,
) -> (Touchscreen, Seq<InputEvent>)
    decreases touches.len(),
{
    if touches.len() == 0 {
        (s, Seq::empty())
    } else {
        let (before, written) = screen_run(s, touches.drop_last());
        let (action, x, y) = touches.last();
        let steps = before.response(action, (scaled(x), scaled(y)));
        (
            if steps.len() == 0 {
                before
            } else {
                steps.last().state
            },
            written + step_events(steps),
        )
    }
}

proof fn lemma_contact_joined(open: bool, a: Seq<InputEvent>, b: Seq<InputEvent>)
    ensures
        contact_after(open, a + b) == (match contact_after(open, a) {
            Some(was) => contact_after(was, b),
            None => None,
        }),
        button_after(BTN_TOUCH, open, a + b) == button_after(
            BTN_TOUCH,
            button_after(BTN_TOUCH, open, a),
            b,
        ),
    decreases b.len(),
{
    if b.len() == 0 {
        assert(a + b =~= a);
    } else {
        assert((a + b).drop_last() =~= a + b.drop_last());
        assert((a + b).last() == b.last());
        lemma_contact_joined(open, a, b.drop_last());
    }
}

proof fn lemma_batches(pos: (i32, i32), id: i32, open: bool)
    requires
        id > 0,
    ensures
        contact_after(false, press_events(pos, id)) == Some(true),
        contact_after(true, release_events(pos)) == Some(false),
        contact_after(open, slide_events(pos)) == Some(open),
        button_after(BTN_TOUCH, open, press_events(pos, id)),
        !button_after(BTN_TOUCH, open, release_events(pos)),
        button_after(BTN_TOUCH, open, slide_events(pos)) == open,
{
    reveal_with_fuel(contact_after, 9);
    reveal_with_fuel(button_after, 9);
}

proof fn lemma_one_touch(s: Touchscreen, action: TouchAction, x: u16, y: u16)
    requires
        s.wf(),
    ensures
        ({
            let steps = s.response(action, (scaled(x), scaled(y)));
            let after = if steps.len() == 0 {
                s
            } else {
                steps.last().state
            };
            &&& after.wf()
            &&& contact_after(s.contact_open, step_events(steps)) == Some(after.contact_open)
            &&& button_after(BTN_TOUCH, s.contact_open, step_events(steps)) == after.contact_open
        }),
{
    let pos = (scaled(x), scaled(y));
    let steps = s.response(action, pos);
    let lifted = if pos != (0i32, 0i32) {
        pos
    } else {
        s.last_pos
    };
    scaling_keeps_edges_and_order(x, x);
    scaling_keeps_edges_and_order(y, y);
    lemma_batches(pos, s.next_tracking_id, s.contact_open);
    lemma_batches(s.last_pos, s.next_tracking_id, s.contact_open);
    lemma_batches(lifted, s.next_tracking_id, s.contact_open);
    reveal_with_fuel(step_events, 3);
    if steps.len() == 1 {
        assert(step_events(steps) =~= steps[0].events);
    } else if steps.len() == 2 {
        lemma_contact_joined(s.contact_open, steps[0].events, steps[1].events);
        lemma_batches(pos, s.next_tracking_id, false);
        assert(steps.drop_last() =~= seq![steps[0]]);
        assert(step_events(steps) =~= steps[0].events + steps[1].events);
    } else {
        assert(step_events(steps) =~= Seq::<InputEvent>::empty());
    }
}

/// Whatever touches come, in whatever order, contacts on the screen open and
/// close in turn: none is opened while another is open, none is closed that is
/// not open, and the finger is reported down exactly while one is open.
pub proof fn contacts_open_and_close_in_turn(
    s: Touchscreen,
    touches: Seq<(TouchAction, u16, u16)>,
)
    requires
        s.wf(),
    ensures
        ({
            let (after, written) = screen_run(s, touches);
            &&& after.wf()
            &&& contact_after(s.contact_open, written) == Some(after.contact_open)
            &&& button_after(BTN_TOUCH, s.contact_open, written) == after.contact_open
        }),
    decreases touches.len(),
{
    if touches.len() > 0 {
        contacts_open_and_close_in_turn(s, touches.drop_last());
        let (before, written) = screen_run(s, touches.drop_last());
        let (action, x, y) = touches.last();
        lemma_one_touch(before, action, x, y);
        lemma_contact_joined(
            s.contact_open,
            written,
            step_events(before.response(action, (scaled(x), scaled(y)))),
        );
    }
}

// ----------------------------------------------------------------- gestures ---

/// Whether two places on the tablet are close enough for a tap, on both axes.
pub open spec fn near(a: (u16, u16), b: (u16, u16)) -> bool {
    -1500 <= a.0 - b.0 <= 1500 && -1500 <= a.1 - b.1 <= 1500
}

pub open spec fn all_near(moves: Seq<(u16, u16)>, from: (u16, u16)) -> bool {
    forall|k: int| 0 <= k < moves.len() ==> near(#[trigger] moves[k], from)
}

/// Press or let go of a button, as the kernel takes it: the key, and the end of
/// the batch.
pub open spec fn key_batch(code: u16, value: i32) -> Seq<InputEvent> {
    seq![InputEvent { kind: 1, code, value }, InputEvent { kind: 0, code: 0, value: 0 }]
}

pub open spec fn left_click() -> Seq<Seq<InputEvent>> {
    seq![key_batch(0x110, 1), key_batch(0x110, 0)]
}

pub open spec fn right_click() -> Seq<Seq<InputEvent>> {
    seq![key_batch(0x111, 1), key_batch(0x111, 0)]
}

/// A motion of the finger: from where, and to where.
pub type Motion = ((u16, u16), (u16, u16));

/// What a run of moves did.
pub ghost struct Swipe {
    pub after: PointerInput,
    /// Everything that was written apart from motion.
    pub written: Seq<Seq<InputEvent>>,
    pub motions: Seq<Motion>,
}

/// A run of moves, each carried out in full before the next.
pub open spec fn swipe(p: PointerInput, moves: Seq<(u16, u16)>, now: u64) -> Swipe
    decreases moves.len(),
{
    if moves.len() == 0 {
        Swipe { after: p, written: Seq::empty(), motions: Seq::empty() }
    } else {
        let before = swipe(p, moves.drop_last(), now);
        let (x, y) = moves.last();
        let (during, plan) = before.after.touched(TouchAction::Move, x, y, now);
        Swipe {
            after: during.completed(plan.completion, now),
            written: before.written + plan.batches,
            motions: match plan.motion {
                Some(m) => before.motions.push(m),
                None => before.motions,
            },
        }
    }
}

/// The finger comes down, and that is carried out.
pub open spec fn put_down(p: PointerInput, at: (u16, u16), now: u64) -> PointerInput {
    let (during, plan) = p.touched(TouchAction::Down, at.0, at.1, now);
    during.completed(plan.completion, now)
}

/// Whether the last tap ended less than 300 ms ago.
pub open spec fn tapped_just_now(p: PointerInput, now: u64) -> bool {
    p.last_tap_end matches Some(t) && now - t < 300_000_000
}

/// How far some motions go in all.
pub open spec fn way(motions: Seq<Motion>) -> (int, int)
    decreases motions.len(),
{
    if motions.len() == 0 {
        (0, 0)
    } else {
        let before = way(motions.drop_last());
        let (from, to) = motions.last();
        (before.0 + to.0 - from.0, before.1 + to.1 - from.1)
    }
}

/// Where the finger is after some moves.
pub open spec fn finger_at(from: (u16, u16), moves: Seq<(u16, u16)>) -> (u16, u16) {
    if moves.len() == 0 {
        from
    } else {
        moves.last()
    }
}

proof fn lemma_swipe(p: PointerInput, at: (u16, u16), moves: Seq<(u16, u16)>, t: u64, now: u64)
    requires
        !tapped_just_now(p, t),
    ensures
        ({
            let s = swipe(put_down(p, at, t), moves, now);
            let last = finger_at(at, moves);
            &&& s.after == (PointerInput {
                state: PointerState::Touched {
                    down_at: t,
                    down_x: at.0,
                    down_y: at.1,
                    last_x: last.0,
                    last_y: last.1,
                    pending_drag: false,
                    moved: !all_near(moves, at),
                },
                last_tap_end: p.last_tap_end,
            })
            &&& s.written == Seq::<Seq<InputEvent>>::empty()
            &&& s.motions.len() == moves.len()
            &&& forall|k: int|
                0 <= k < moves.len() ==> #[trigger] s.motions[k] == (
                    if k == 0 {
                        at
                    } else {
                        moves[k - 1]
                    },
                    moves[k],
                )
            &&& way(s.motions) == (last.0 - at.0, last.1 - at.1)
        }),
    decreases moves.len(),
{
    if moves.len() > 0 {
        let head = moves.drop_last();
        lemma_swipe(p, at, head, t, now);
        assert(all_near(moves, at) == (all_near(head, at) && near(moves.last(), at))) by {
            if all_near(head, at) && near(moves.last(), at) {
                assert forall|k: int| 0 <= k < moves.len() implies near(#[trigger] moves[k], at) by {
                    if k < head.len() {
                        assert(head[k] == moves[k]);
                    }
                }
            }
            if all_near(moves, at) {
                assert forall|k: int| 0 <= k < head.len() implies near(#[trigger] head[k], at) by {
                    assert(head[k] == moves[k]);
                }
            }
        }
        let before = swipe(put_down(p, at, t), head, now);
        let after = swipe(put_down(p, at, t), moves, now);
        assert(after.written =~= before.written);
        assert(after.motions.drop_last() =~= before.motions);
        assert forall|k: int| 0 <= k < moves.len() implies #[trigger] after.motions[k] == (
            if k == 0 {
                at
            } else {
                moves[k - 1]
            },
            moves[k],
        ) by {
            if k < head.len() {
                assert(after.motions[k] == before.motions[k]);
            }
        }
    }
}

/// The cursor follows the finger: over any run of moves each motion starts where
/// the one before it ended, the first where the finger came down, and they add up
/// to the way from there to where the finger is. No button is touched.
pub proof fn motions_follow_the_finger(
    p: PointerInput,
    at: (u16, u16),
    moves: Seq<(u16, u16)>,
    t: u64,
    now: u64,
)
    requires
        !tapped_just_now(p, t),
    ensures
        ({
            let s = swipe(put_down(p, at, t), moves, now);
            let last = finger_at(at, moves);
            &&& s.written.len() == 0
            &&& s.motions.len() == moves.len()
            &&& forall|k: int|
                0 <= k < moves.len() ==> (#[trigger] s.motions[k]).1 == moves[k] && s.motions[k].0
                    == (if k == 0 {
                    at
                } else {
                    moves[k - 1]
                })
            &&& way(s.motions) == (last.0 - at.0, last.1 - at.1)
        }),
{
    lemma_swipe(p, at, moves, t, now);
}

/// In any gesture a motion starts where the move before it went, or where the
/// finger came down; and it ends where the finger is.
pub proof fn motions_join_up(p: PointerInput, a: (u16, u16), b: (u16, u16), t: u64, now: u64)
    ensures
        ({
            let (during, first) = p.touched(TouchAction::Move, a.0, a.1, now);
            let next = during.completed(first.completion, now);
            &&& first.motion matches Some(m) ==> m.1 == a
            &&& next.touched(TouchAction::Move, b.0, b.1, now).1.motion matches Some(m) ==> m == (
                a,
                b,
            )
            &&& put_down(p, a, t).touched(TouchAction::Move, b.0, b.1, now).1.motion matches Some(
                m,
            ) ==> m == (a, b)
        }),
{
}

/// A touch that never strays is a click of the left button when it ends, and
/// one that strays at any time is none. Only a click is remembered as a tap.
pub proof fn still_touches_click(
    p: PointerInput,
    at: (u16, u16),
    moves: Seq<(u16, u16)>,
    end: (u16, u16),
    t: u64,
    now: u64,
    done: u64,
)
    requires
        !tapped_just_now(p, t),
    ensures
        ({
            let held = swipe(put_down(p, at, t), moves, now).after;
            let (during, plan) = held.touched(TouchAction::Up, end.0, end.1, now);
            let after = during.completed(plan.completion, done);
            let still = all_near(moves, at) && near(end, at);
            &&& plan.motion is None
            &&& plan.batches == if still {
                left_click()
            } else {
                Seq::empty()
            }
            &&& after.state is Idle
            &&& after.last_tap_end == if still {
                Some(done)
            } else {
                None
            }
            &&& held.touched(TouchAction::Cancel, end.0, end.1, now) == (during, plan)
        }),
{
    lemma_swipe(p, at, moves, t, now);
}

proof fn lemma_drag(p: PointerInput, at: (u16, u16), moves: Seq<(u16, u16)>, t: u64, now: u64)
    requires
        tapped_just_now(p, t),
    ensures
        ({
            let s = swipe(put_down(p, at, t), moves, now);
            let last = finger_at(at, moves);
            &&& s.after.last_tap_end == p.last_tap_end
            &&& all_near(moves, at) ==> s.after.state == (PointerState::Touched {
                down_at: t,
                down_x: at.0,
                down_y: at.1,
                last_x: last.0,
                last_y: last.1,
                pending_drag: true,
                moved: false,
            }) && s.written == Seq::<Seq<InputEvent>>::empty() && s.motions.len() == moves.len()
            &&& !all_near(moves, at) ==> s.after.state == (PointerState::Dragging {
                last_x: last.0,
                last_y: last.1,
            }) && s.written == seq![key_batch(0x110, 1)] && s.motions.len() == moves.len() - 1
        }),
    decreases moves.len(),
{
    if moves.len() > 0 {
        let head = moves.drop_last();
        lemma_drag(p, at, head, t, now);
        assert(all_near(moves, at) == (all_near(head, at) && near(moves.last(), at))) by {
            if all_near(head, at) && near(moves.last(), at) {
                assert forall|k: int| 0 <= k < moves.len() implies near(#[trigger] moves[k], at) by {
                    if k < head.len() {
                        assert(head[k] == moves[k]);
                    }
                }
            }
            if all_near(moves, at) {
                assert forall|k: int| 0 <= k < head.len() implies near(#[trigger] head[k], at) by {
                    assert(head[k] == moves[k]);
                }
            }
        }
        let before = swipe(put_down(p, at, t), head, now);
        let after = swipe(put_down(p, at, t), moves, now);
        let one = seq![key_batch(0x110, 1)];
        assert(button(BTN_LEFT, 1) =~= key_batch(0x110, 1));
        if all_near(moves, at) || !all_near(head, at) {
            assert(after.written =~= before.written);
        } else {
            assert(after.written =~= one);
        }
    }
}

/// A touch soon after a tap holds the left button from the moment that it
/// strays until it ends, and clicks like any other where it never does.
pub proof fn touches_after_a_tap_drag(
    p: PointerInput,
    at: (u16, u16),
    moves: Seq<(u16, u16)>,
    end: (u16, u16),
    t: u64,
    now: u64,
    done: u64,
)
    requires
        tapped_just_now(p, t),
    ensures
        ({
            let s = swipe(put_down(p, at, t), moves, now);
            let (during, plan) = s.after.touched(TouchAction::Up, end.0, end.1, now);
            let after = during.completed(plan.completion, done);
            &&& after.state is Idle
            &&& all_near(moves, at) ==> s.written.len() == 0 && s.motions.len() == moves.len()
                && plan.batches == if near(end, at) {
                left_click()
            } else {
                Seq::empty()
            }
            &&& !all_near(moves, at) ==> s.written == seq![key_batch(0x110, 1)] && s.motions.len()
                == moves.len() - 1 && plan.batches == seq![key_batch(0x110, 0)]
                && after.last_tap_end is None && s.after.cancelling().batches == seq![
                key_batch(0x110, 0),
            ]
        }),
{
    lemma_drag(p, at, moves, t, now);
    assert(button(BTN_LEFT, 1) =~= key_batch(0x110, 1));
    assert(button(BTN_LEFT, 0) =~= key_batch(0x110, 0));
}

/// A touch becomes a long press once it has been held for 600 ms without
/// straying, and never once it has strayed or ended.
pub proof fn long_presses_are_timed(
    p: PointerInput,
    at: (u16, u16),
    moves: Seq<(u16, u16)>,
    t: u64,
    now: u64,
)
    ensures
        ({
            let held = swipe(put_down(p, at, t), moves, now).after;
            let left = held.long_press_in(now);
            &&& left is Some <==> all_near(moves, at)
            &&& left matches Some(wait) ==> {
                &&& now <= t ==> wait == 600_000_000
                &&& t <= now < t + 600_000_000 ==> now + wait == t + 600_000_000
                &&& now >= t + 600_000_000 ==> wait == 0
            }
            &&& held.touched(TouchAction::Up, at.0, at.1, now).0.long_press_in(now) is None
        }),
{
    if tapped_just_now(p, t) {
        lemma_drag(p, at, moves, t, now);
    } else {
        lemma_swipe(p, at, moves, t, now);
    }
}

/// A long press clicks the right button, and then nothing happens until the
/// finger is put down again.
pub proof fn long_presses_click_right(
    p: PointerInput,
    at: (u16, u16),
    moves: Seq<(u16, u16)>,
    more: Seq<(u16, u16)>,
    end: (u16, u16),
    t: u64,
    now: u64,
)
    requires
        all_near(moves, at),
    ensures
        ({
            let held = swipe(put_down(p, at, t), moves, now).after;
            let plan = held.long_pressed();
            let pressed = held.completed(plan.completion, now);
            let s = swipe(pressed, more, now);
            let (during, lift) = s.after.touched(TouchAction::Up, end.0, end.1, now);
            let after = during.completed(lift.completion, now);
            &&& plan.batches == right_click() && plan.motion is None
            &&& s.written.len() == 0 && s.motions.len() == 0
            &&& s.after.long_press_in(now) is None && s.after.long_pressed().batches.len() == 0
            &&& lift.batches.len() == 0 && lift.motion is None
            &&& after == (PointerInput { state: PointerState::Idle, last_tap_end: None })
        }),
{
    if tapped_just_now(p, t) {
        lemma_drag(p, at, moves, t, now);
    } else {
        lemma_swipe(p, at, moves, t, now);
    }
    let held = swipe(put_down(p, at, t), moves, now).after;
    let pressed = held.completed(held.long_pressed().completion, now);
    lemma_consumed(pressed, more, now);
    assert(button(BTN_RIGHT, 1) =~= key_batch(0x111, 1));
    assert(button(BTN_RIGHT, 0) =~= key_batch(0x111, 0));
}

proof fn lemma_consumed(p: PointerInput, moves: Seq<(u16, u16)>, now: u64)
    requires
        p.state is Consumed || p.state is Idle,
    ensures
        swipe(p, moves, now).after == p,
        swipe(p, moves, now).written == Seq::<Seq<InputEvent>>::empty(),
        swipe(p, moves, now).motions == Seq::<Motion>::empty(),
    decreases moves.len(),
{
    if moves.len() > 0 {
        lemma_consumed(p, moves.drop_last(), now);
        assert(swipe(p, moves, now).written =~= Seq::<Seq<InputEvent>>::empty());
    }
}

/// Without a finger on the tablet nothing moves or clicks, and letting go of
/// everything leaves no finger, no tap and no button behind.
pub proof fn idle_pointers_are_silent(
    p: PointerInput,
    moves: Seq<(u16, u16)>,
    end: (u16, u16),
    now: u64,
)
    ensures
        p.state is Idle ==> {
            let s = swipe(p, moves, now);
            &&& s.written.len() == 0 && s.motions.len() == 0
            &&& s.after.touched(TouchAction::Up, end.0, end.1, now).1.batches.len() == 0
            &&& s.after.long_press_in(now) is None
            &&& s.after.long_pressed().batches.len() == 0
        },
        p.completed(p.cancelling().completion, now) == (PointerInput {
            state: PointerState::Idle,
            last_tap_end: None,
        }),
        !(p.state is Dragging) ==> p.cancelling().batches.len() == 0,
        p.cancelling().motion is None && p.cancelling().residual == Residual::ClearAfter,
{
    if p.state is Idle {
        lemma_consumed(p, moves, now);
    }
}

/// How far a batch moves the cursor along an axis.
pub open spec fn cursor_way(events: Seq<InputEvent>, axis: u16) -> int
    decreases events.len(),
{
    if events.len() == 0 {
        0
    } else {
        let e = events.last();
        cursor_way(events.drop_last(), axis) + if e.kind == 2 && e.code == axis {
            e.value as int
        } else {
            0
        }
    }
}

/// The cursor moves by just so many pixels along each axis, all in one batch that
/// is ended once; and nothing is written where it stays.
pub proof fn cursor_moves_as_far_as_asked(dx: i32, dy: i32)
    ensures
        cursor_way(motion_events(dx, dy), 0) == dx,
        cursor_way(motion_events(dx, dy), 1) == dy,
        motion_events(dx, dy).len() == 0 <==> dx == 0 && dy == 0,
        motion_events(dx, dy).len() > 0 ==> motion_events(dx, dy).last() == (InputEvent {
            kind: 0,
            code: 0,
            value: 0,
        }),
        forall|i: int|
            0 <= i < motion_events(dx, dy).len() - 1 ==> (#[trigger] motion_events(dx, dy)[i]).kind
                == 2,
{
    reveal_with_fuel(cursor_way, 4);
}

// ------------------------------------------------------------------- places ---

/// The last value that a batch gives an absolute axis.
pub open spec fn axis_value(events: Seq<InputEvent>, axis: u16) -> Option<i32>
    decreases events.len(),
{
    if events.len() == 0 {
        None
    } else if events.last().kind == 3 && events.last().code == axis {
        Some(events.last().value)
    } else {
        axis_value(events.drop_last(), axis)
    }
}

/// Whether a value of the touchscreen is as far along as a coordinate of the
/// tablet.
pub open spec fn as_far(value: Option<i32>, v: u16) -> bool {
    value matches Some(at) && at * 65535 <= v * 32767 < (at + 1) * 65535
}

/// Whether a batch reports the finger at a place of the tablet, by the axes of
/// the contact and by those of the pointer.
pub open spec fn reports(events: Seq<InputEvent>, x: u16, y: u16) -> bool {
    &&& as_far(axis_value(events, 0x35), x) && as_far(axis_value(events, 0x36), y)
    &&& as_far(axis_value(events, 0x00), x) && as_far(axis_value(events, 0x01), y)
}

/// A touch is reported at the place that was touched: where the finger comes
/// down, where it slides to, and where it is lifted.
pub proof fn touches_land_where_they_were_made(s: Touchscreen, action: TouchAction, x: u16, y: u16)
    requires
        s.wf(),
    ensures
        ({
            let steps = s.response(action, (scaled(x), scaled(y)));
            let last = steps.last().events;
            &&& action == TouchAction::Down ==> steps.len() >= 1 && reports(last, x, y) && (
            axis_value(last, 0x39) matches Some(id) && id >= 1) && button_after(0x14a, false, last)
            &&& action == TouchAction::Move && s.contact_open ==> steps.len() == 1 && reports(
                last,
                x,
                y,
            ) && axis_value(last, 0x39) is None && button_after(0x14a, true, last)
            &&& (action == TouchAction::Up || action == TouchAction::Cancel) && s.contact_open
                ==> steps.len() == 1 && axis_value(last, 0x39) == Some(-1i32) && !button_after(
                0x14a,
                true,
                last,
            ) && (x >= 3 || y >= 3 ==> reports(last, x, y))
            &&& steps.len() > 0 ==> last.last() == (InputEvent { kind: 0, code: 0, value: 0 })
        }),
{
    let pos = (scaled(x), scaled(y));
    reveal_with_fuel(axis_value, 9);
    reveal_with_fuel(button_after, 9);
    scaling_is_proportional(x);
    scaling_is_proportional(y);
}

/// A finger that is lifted with no place given is lifted where it last was.
pub proof fn lifting_stays_in_place(
    s: Touchscreen,
    action: TouchAction,
    x: u16,
    y: u16,
    end: TouchAction,
)
    requires
        s.wf(),
        action == TouchAction::Down || action == TouchAction::Move && s.contact_open,
        end == TouchAction::Up || end == TouchAction::Cancel,
    ensures
        ({
            let touched = s.response(action, (scaled(x), scaled(y))).last().state;
            let lifted = touched.response(end, (scaled(0), scaled(0)));
            &&& lifted.len() == 1
            &&& reports(lifted[0].events, x, y)
            &&& !lifted[0].state.contact_open
        }),
{
    reveal_with_fuel(axis_value, 9);
    scaling_is_proportional(x);
    scaling_is_proportional(y);
}

/// The declared resolution is the range over the physical size at 160 pixels per
/// inch, in whole units per millimetre; an empty output has none.
pub proof fn resolution_is_the_range_over_the_size(pixels: u32)
    ensures
        pixels == 0 ==> resolution_for(pixels) == 0,
        pixels > 0 ==> resolution_for(pixels) * 127 * pixels <= 32767 * 800 < (resolution_for(
            pixels,
        ) + 1) * 127 * pixels,
{
    if pixels > 0 {
        let d = 127 * pixels;
        let q = 26_213_600int / d;
        assert(q * d <= 26_213_600 < (q + 1) * d && 0 <= q <= 26_213_600) by (nonlinear_arith)
            requires
                q == 26_213_600int / d,
                d >= 127,
        ;
        assert(resolution_for(pixels) == q);
        assert(q * 127 * pixels == q * d && (q + 1) * 127 * pixels == (q + 1) * d)
            by (nonlinear_arith)
            requires
                d == 127 * pixels,
        ;
    }
}

/// A touch reaches the device that there is at the place that was touched: a
/// touchscreen reports it there, and a pointer goes by it.
pub proof fn touches_reach_either_device(
    d: TouchInput,
    action: TouchAction,
    x: u16,
    y: u16,
    now: u64,
    after: TouchInput,
    plan: TouchPlan,
)
    requires
        d.wf(),
        d.sends(action, x, y, now, after, plan),
    ensures
        d is Screen <==> plan is Screen,
        d is Screen ==> after == d,
        d matches TouchInput::Screen(s) ==> (plan matches TouchPlan::Screen(steps) && (action
            == TouchAction::Down || action == TouchAction::Move && s.contact_open ==> steps@.len()
            > 0 && reports(steps@.last().events@, x, y))),
        plan matches TouchPlan::Pointer(made) ==> {
            &&& made.motion matches Some(m) ==> m.1 == (x, y)
            &&& made.motion is Some ==> action == TouchAction::Move
            &&& made.batches@.len() > 0 ==> action != TouchAction::Down
        },
        action == TouchAction::Down ==> (after matches TouchInput::Pointer(q) ==> q.state
            matches PointerState::Touched { down_at, down_x, down_y, last_x, last_y, moved, .. }
            && down_at == now && down_x == x && down_y == y && last_x == x && last_y == y && !moved),
{
    match d {
        TouchInput::Screen(s) => {
            touches_land_where_they_were_made(s, action, x, y);
            match plan {
                TouchPlan::Screen(steps) => {
                    let views = step_views(steps@);
                    assert(views.len() == steps@.len());
                    if steps@.len() > 0 {
                        assert(views.last() == steps@.last()@);
                    }
                },
                _ => {},
            }
        },
        TouchInput::Pointer(p) => {
            match plan {
                TouchPlan::Pointer(made) => {
                    assert(made@.batches.len() == made.batches@.len());
                },
                _ => {},
            }
        },
    }
}

/// What is left of a pixel is dropped when a finger comes down and when everything is
/// let go of, and at no other time.
pub proof fn fractions_last_for_one_touch(
    p: PointerInput,
    action: TouchAction,
    x: u16,
    y: u16,
    now: u64,
)
    ensures
        p.touched(action, x, y, now).1.residual == if action == TouchAction::Down {
            Residual::ClearNow
        } else {
            Residual::Keep
        },
        p.cancelling().residual == Residual::ClearAfter,
        p.long_pressed().residual == Residual::Keep,
{
}

/// A touchscreen declares the width of its output for its horizontal axes and the
/// height for its vertical ones, all over the same range.
pub proof fn axes_go_with_their_side(width: u32, height: u32, i: int)
    requires
        0 <= i < screen_axes(width, height).len(),
    ensures
        screen_axes(width, height).len() == 6,
        ({
            let a = screen_axes(width, height)[i];
            &&& a.code == 0x00 || a.code == 0x35 ==> a.max == 32767 && a.resolution
                == resolution_for(width)
            &&& a.code == 0x01 || a.code == 0x36 ==> a.max == 32767 && a.resolution
                == resolution_for(height)
            &&& a.code == 0x00 || a.code == 0x01 || a.code == 0x35 || a.code == 0x36 || a.code
                == 0x2f || a.code == 0x39
            &&& a.code == 0x39 ==> a.max == 65535
        }),
        forall|j: int|
            0 <= j < 6 && j != i ==> (#[trigger] screen_axes(width, height)[j]).code != screen_axes(
                width,
                height,
            )[i].code,
{
}

} // verus!
