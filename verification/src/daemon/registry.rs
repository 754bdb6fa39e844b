//! The reconciler: which tablets have a session, which should have one, and
//! what each new session gets.
//!
//! The outer loop compares the tablets that are ready with the sessions that
//! run, and starts or stops sessions to close the gap. Everything per session
//! lives on that session's thread; here is only what the loop knows of it.
//! Points in time are nanoseconds on one monotonic clock.

use vstd::prelude::*;

use crate::daemon::args::{valid_settings, Args, ArgsView};
use crate::daemon::session::{Config, ConfigView};
use crate::daemon::tracker::{device_views, Device, DeviceView};
use crate::protocol::{is_rotation, PORT_RANGE};
use crate::table::{distinct_keys, Table};
use crate::text::{
    chars_of, lemma_map_push, lowered, same_str, string_of, strings, to_lower,
};

verus! {

/// How long a device must be continuously reported as ready before a session is
/// started for it. A flapping cable can present a device that is gone by the
/// time the session opens it; surviving one full poll interval filters that
/// out. Slightly longer than the read timeout, so the state is observed across
/// at least two iterations.
pub const SPAWN_DEBOUNCE_NS: u64 = 600_000_000;

/// How long one wait for news from the tracker lasts.
pub const POLL_TIMEOUT_MS: u64 = 500;

/// How long to wait before connecting to a lost tracker again.
pub const RECONNECT_DELAY_MS: u64 = 2000;

pub const SECOND_NS: u64 = 1_000_000_000;

/// One running session, as far as the reconciler knows it.
#[derive(Debug)]
pub struct Running {
    pub port: u16,
    pub output_name: String,
    /// The session has been told to end.
    pub stopping: bool,
}

/// Backoff of one device after a failed session. It is kept per device: one
/// tablet failing repeatedly must not delay another's first attempt.
#[derive(Debug, Clone, Copy, PartialEq, Eq, Structural)]
pub struct Cooldown {
    pub failures: u32,
    pub next_attempt: u64,
}

/// All that the outer loop remembers.
#[derive(Debug)]
pub struct Registry {
    /// The last device list that arrived. It stands until another arrives.
    pub devices: Vec<Device>,
    pub sessions: Table<Running>,
    pub cooldowns: Table<Cooldown>,
    /// When each serial was first seen continuously ready.
    pub seen_ready_at: Table<u64>,
    pub announced_idle: bool,
    /// With `--once`, whether the devices to serve have been chosen.
    pub once_armed: bool,
}

// ----------------------------------------------------------------- models ---

/// Whether a device with this serial is ready.
pub open spec fn ready_serial(devices: Seq<DeviceView>, serial: Seq<char>) -> bool {
    exists|i: int|
        0 <= i < devices.len() && #[trigger] devices[i].ready() && devices[i].serial == serial
}

/// Since when each ready device has been ready: as before for those that still
/// are, and `now` for those that have just become so.
pub open spec fn seen_after(
    seen: Map<Seq<char>, u64>,
    devices: Seq<DeviceView>,
    now: u64,
) -> Map<Seq<char>, u64> {
    Map::new(
        |k: Seq<char>| ready_serial(devices, k),
        |k: Seq<char>|
            if seen.contains_key(k) {
                seen[k]
            } else {
                now
            },
    )
}

/// Whether a device has been ready for long enough.
pub open spec fn debounced(seen: Map<Seq<char>, u64>, serial: Seq<char>, now: u64) -> bool {
    seen.contains_key(serial) && now - seen[serial] >= SPAWN_DEBOUNCE_NS
}

/// Whether a device may be tried again.
pub open spec fn cooled_down(
    cooldowns: Map<Seq<char>, Cooldown>,
    serial: Seq<char>,
    now: u64,
) -> bool {
    cooldowns.contains_key(serial) ==> now >= cooldowns[serial].next_attempt
}

/// The devices that are ready, in order.
pub open spec fn ready_devices(devices: Seq<DeviceView>) -> Seq<DeviceView>
    decreases devices.len(),
{
    if devices.len() == 0 {
        Seq::empty()
    } else {
        let earlier = ready_devices(devices.drop_last());
        if devices.last().ready() {
            earlier.push(devices.last())
        } else {
            earlier
        }
    }
}

/// Whether a session should be started for a device.
pub open spec fn wants_session(
    device: DeviceView,
    sessions: Map<Seq<char>, Running>,
    seen: Map<Seq<char>, u64>,
    cooldowns: Map<Seq<char>, Cooldown>,
    now: u64,
) -> bool {
    &&& device.ready()
    &&& !sessions.contains_key(device.serial)
    &&& debounced(seen, device.serial, now)
    &&& cooled_down(cooldowns, device.serial, now)
}

/// The devices that a session should be started for, in order.
pub open spec fn wanting(
    devices: Seq<DeviceView>,
    sessions: Map<Seq<char>, Running>,
    seen: Map<Seq<char>, u64>,
    cooldowns: Map<Seq<char>, Cooldown>,
    now: u64,
) -> Seq<DeviceView>
    decreases devices.len(),
{
    if devices.len() == 0 {
        Seq::empty()
    } else {
        let earlier = wanting(devices.drop_last(), sessions, seen, cooldowns, now);
        if wants_session(devices.last(), sessions, seen, cooldowns, now) {
            earlier.push(devices.last())
        } else {
            earlier
        }
    }
}

/// Whether some ready device has been ready for long enough.
pub open spec fn any_debounced(
    devices: Seq<DeviceView>,
    seen: Map<Seq<char>, u64>,
    now: u64,
) -> bool {
    exists|i: int|
        0 <= i < devices.len() && #[trigger] devices[i].ready() && debounced(
            seen,
            devices[i].serial,
            now,
        )
}

/// The serials of the sessions whose device is not ready, in order.
pub open spec fn vanished(
    entries: Seq<(String, Running)>,
    devices: Seq<DeviceView>,
) -> Seq<Seq<char>>
    decreases entries.len(),
{
    if entries.len() == 0 {
        Seq::empty()
    } else {
        let earlier = vanished(entries.drop_last(), devices);
        if ready_serial(devices, entries.last().0@) {
            earlier
        } else {
            earlier.push(entries.last().0@)
        }
    }
}

/// A session after the device list has been compared with it.
pub open spec fn after_check(
    entry: (String, Running),
    devices: Seq<DeviceView>,
) -> (String, Running) {
    (
        entry.0,
        Running { stopping: entry.1.stopping || !ready_serial(devices, entry.0@), ..entry.1 },
    )
}

/// Whether some session uses a port.
pub open spec fn port_taken(entries: Seq<(String, Running)>, port: int) -> bool {
    exists|i: int| 0 <= i < entries.len() && #[trigger] entries[i].1.port == port
}

/// Whether some session uses an output name.
pub open spec fn name_taken(entries: Seq<(String, Running)>, name: Seq<char>) -> bool {
    exists|i: int| 0 <= i < entries.len() && #[trigger] entries[i].1.output_name@ == name
}

/// No two sessions use the same port.
pub open spec fn distinct_ports(entries: Seq<(String, Running)>) -> bool {
    forall|i: int, j: int|
        0 <= i < j < entries.len() ==> #[trigger] entries[i].1.port != #[trigger] entries[j].1.port
}

/// No two sessions use the same output name.
pub open spec fn distinct_names(entries: Seq<(String, Running)>) -> bool {
    forall|i: int, j: int|
        0 <= i < j < entries.len() ==> #[trigger] entries[i].1.output_name@
            != #[trigger] entries[j].1.output_name@
}

// ------------------------------------------------------------- allocation ---

/// Why no port could be had.
#[derive(Debug, Clone, Copy, PartialEq, Eq, Structural)]
pub enum PortError {
    /// The range runs past the last port there is.
    Overflow,
    /// Every port from the first to the last of the range is in use.
    Exhausted(u16, u16),
}

fn is_port_taken(sessions: &Table<Running>, port: u16) -> (r: bool)
    ensures
        r == port_taken(sessions.entries@, port as int),
{
    let mut i: usize = 0;
    while i < sessions.entries.len()
        invariant
            i <= sessions.entries@.len(),
            forall|j: int| 0 <= j < i ==> #[trigger] sessions.entries@[j].1.port != port,
        decreases sessions.entries@.len() - i,
    {
        if sessions.entries[i].1.port == port {
            return true;
        }
        i += 1;
    }
    false
}

/// What the choice of a port must come to: the lowest free port of the range.
pub open spec fn port_choice(
    entries: Seq<(String, Running)>,
    base: u16,
    r: Result<u16, PortError>,
) -> bool {
    match r {
        Ok(port) => {
            &&& base <= port < base + PORT_RANGE
            &&& !port_taken(entries, port as int)
            &&& forall|p: int| base <= p < port ==> port_taken(entries, p)
        },
        Err(PortError::Overflow) => {
            &&& base + PORT_RANGE > 0x1_0000
            &&& forall|p: int| base <= p < 0x1_0000 ==> port_taken(entries, p)
        },
        Err(PortError::Exhausted(first, last)) => {
            &&& first == base && last == base + PORT_RANGE - 1
            &&& forall|p: int| base <= p <= last ==> port_taken(entries, p)
        },
    }
}

/// Lowest free port in `base..base + PORT_RANGE`. The whole range is claimed by
/// this daemon.
pub fn allocate_port(sessions: &Table<Running>, base: u16) -> (r: Result<u16, PortError>)
    ensures
        port_choice(sessions.entries@, base, r),
{
    let mut offset: u16 = 0;
    while offset < PORT_RANGE
        invariant
            offset <= PORT_RANGE,
            base + offset <= 0x1_0000,
            forall|p: int| base <= p < base + offset ==> port_taken(sessions.entries@, p),
        decreases PORT_RANGE - offset,
    {
        let candidate: u16 = match base.checked_add(offset) {
            Some(port) => port,
            None => {
                return Err(PortError::Overflow);
            },
        };
        if !is_port_taken(sessions, candidate) {
            return Ok(candidate);
        }
        offset += 1;
    }
    let last: u16 = base.saturating_add(PORT_RANGE - 1);
    Err(PortError::Exhausted(base, last))
}

/// Why no output name could be had.
#[derive(Debug)]
pub enum NameError {
    /// The name that was asked for belongs to the session of `holder`.
    Held { name: String, holder: String, serial: String },
    /// Neither the end of the serial nor all of it sets the name apart.
    Ambiguous { name: String, serial: String },
}

/// The first session that uses a name.
fn name_holder(sessions: &Table<Running>, name: &str) -> (r: usize)
    ensures
        r <= sessions.entries@.len(),
        r < sessions.entries@.len() ==> sessions.entries@[r as int].1.output_name@ == name@,
        (r < sessions.entries@.len()) == name_taken(sessions.entries@, name@),
{
    let mut i: usize = 0;
    while i < sessions.entries.len() && !same_str(
        sessions.entries[i].1.output_name.as_str(),
        name,
    )
        invariant
            i <= sessions.entries@.len(),
            forall|j: int|
                0 <= j < i ==> #[trigger] sessions.entries@[j].1.output_name@ != name@,
        decreases sessions.entries@.len() - i,
    {
        i += 1;
    }
    i
}

/// Whether a character is an ASCII letter or digit.
pub open spec fn is_alphanumeric(c: char) -> bool {
    ('0' <= c && c <= '9') || ('A' <= c && c <= 'Z') || ('a' <= c && c <= 'z')
}

/// The ASCII letters and digits of a text, in order.
pub open spec fn alphanumerics(s: Seq<char>) -> Seq<char>
    decreases s.len(),
{
    if s.len() == 0 {
        s
    } else if is_alphanumeric(s.last()) {
        alphanumerics(s.drop_last()).push(s.last())
    } else {
        alphanumerics(s.drop_last())
    }
}

/// The last `n` characters of a text, or all of it where it is shorter.
pub open spec fn last_chars(s: Seq<char>, n: nat) -> Seq<char> {
    if s.len() <= n {
        s
    } else {
        s.skip(s.len() - n)
    }
}

/// What sets an output name apart: the end of a serial.
pub open spec fn suffix_of(serial: Seq<char>, n: nat) -> Seq<char> {
    lowered(last_chars(alphanumerics(serial), n))
}

/// Last `n` alphanumerics of `serial`, lowercased. ADB permits `:` in emulator
/// serials and `_` in some vendor-chosen ones, neither of which belong in a
/// monitor name.
pub fn serial_suffix(serial: &str, n: usize) -> (r: String)
    ensures
        r@ == suffix_of(serial@, n as nat),
{
    let cs = chars_of(serial);
    let mut cleaned: Vec<char> = Vec::new();
    let mut i: usize = 0;
    while i < cs.len()
        invariant
            i <= cs@.len(),
            cleaned@ == alphanumerics(cs@.take(i as int)),
        decreases cs@.len() - i,
    {
        let c = cs[i];
        assert(cs@.take(i + 1).drop_last() =~= cs@.take(i as int));
        if ('0' <= c && c <= '9') || ('A' <= c && c <= 'Z') || ('a' <= c && c <= 'z') {
            cleaned.push(c);
        }
        i += 1;
    }
    assert(cs@.take(i as int) =~= cs@);
    let start: usize = if cleaned.len() <= n {
        0
    } else {
        cleaned.len() - n
    };
    let tail = vstd::slice::slice_subrange(cleaned.as_slice(), start, cleaned.len());
    assert(tail@ =~= last_chars(cleaned@, n as nat));
    let low = to_lower(tail);
    string_of(low.as_slice())
}

/// Names to try for a session, in this order, when none was asked for.
pub open spec fn short_name(base: Seq<char>, serial: Seq<char>) -> Seq<char> {
    base + "-"@ + suffix_of(serial, 4)
}

pub open spec fn long_name(base: Seq<char>, serial: Seq<char>) -> Seq<char> {
    base + "-"@ + serial
}

/// What the choice of an output name must come to.
pub open spec fn name_choice(
    entries: Seq<(String, Running)>,
    explicit: bool,
    base: Seq<char>,
    serial: Seq<char>,
    r: Result<String, NameError>,
) -> bool {
    match r {
        Ok(name) => {
            &&& !name_taken(entries, name@)
            &&& name@ == (if explicit || !name_taken(entries, base) {
                base
            } else if !name_taken(entries, short_name(base, serial)) {
                short_name(base, serial)
            } else {
                long_name(base, serial)
            })
        },
        Err(NameError::Held { name, holder, serial: newcomer }) => {
            &&& explicit && name@ == base && newcomer@ == serial
            &&& exists|i: int|
                0 <= i < entries.len() && #[trigger] entries[i].0@ == holder@
                    && entries[i].1.output_name@ == base
        },
        Err(NameError::Ambiguous { name, serial: newcomer }) => {
            &&& !explicit && name@ == base && newcomer@ == serial
            &&& name_taken(entries, base)
            &&& name_taken(entries, short_name(base, serial))
            &&& name_taken(entries, long_name(base, serial))
        },
    }
}

/// Decide the virtual output name for a new session.
///
/// A name that was asked for is used verbatim, so two sessions cannot share it:
/// the new one is refused, and the error names both serials. Otherwise the base
/// name is used while nothing holds it, then the base with the last four
/// alphanumerics of the serial, then with the full serial.
///
/// The name is stable for the session's lifetime: a later tablet does not
/// rename an earlier session.
pub fn resolve_output_name(
    explicit: bool,
    base: &str,
    serial: &str,
    sessions: &Table<Running>,
) -> (r: Result<String, NameError>)
    ensures
        name_choice(sessions.entries@, explicit, base@, serial@, r),
{
    let holder: usize = name_holder(sessions, base);
    if explicit {
        if holder < sessions.entries.len() {
            let other = sessions.entries[holder].0.clone();
            assert(sessions.entries@[holder as int].0@ == other@);
            return Err(
                NameError::Held {
                    name: String::from_str(base),
                    holder: other,
                    serial: String::from_str(serial),
                },
            );
        }
        return Ok(String::from_str(base));
    }
    if holder == sessions.entries.len() {
        return Ok(String::from_str(base));
    }
    let mut candidate = String::from_str(base);
    candidate.append("-");
    candidate.append(serial_suffix(serial, 4).as_str());
    if name_holder(sessions, candidate.as_str()) == sessions.entries.len() {
        return Ok(candidate);
    }
    let mut candidate = String::from_str(base);
    candidate.append("-");
    candidate.append(serial);
    if name_holder(sessions, candidate.as_str()) == sessions.entries.len() {
        return Ok(candidate);
    }
    Err(
        NameError::Ambiguous { name: String::from_str(base), serial: String::from_str(serial) },
    )
}

/// Why no session could be planned.
#[derive(Debug)]
pub enum SpawnError {
    Port(PortError),
    Name(NameError),
}

/// The settings of the session for one device. What was asked for that device
/// by its serial, in any case of letters, wins over what was asked for all.
pub open spec fn session_settings(
    args: ArgsView,
    serial: Seq<char>,
    port: u16,
    name: Seq<char>,
) -> ConfigView {
    let key = lowered(serial);
    ConfigView {
        port,
        output_name: name,
        brightness: if args.brightness_overrides.contains_key(key) {
            Some(args.brightness_overrides[key])
        } else {
            args.config.brightness
        },
        rotation: if args.rotation_overrides.contains_key(key) {
            args.rotation_overrides[key]
        } else {
            args.config.rotation
        },
        ..args.config
    }
}

// -------------------------------------------------------------- decisions ---

/// News from the device tracker.
#[derive(Debug)]
pub enum TrackerEvent {
    /// A new list of devices.
    Update(Vec<Device>),
    /// Nothing within the timeout: the last list stands.
    Quiet,
    /// The connection is gone.
    Lost,
}

/// How a session ended.
#[derive(Debug, Clone, Copy, PartialEq, Eq, Structural)]
pub enum SessionEnd {
    Clean,
    Failed,
    Panicked,
}

/// What one look at the device list asks for.
#[derive(Debug)]
pub struct Reconciliation {
    /// Sessions to tell to end: their device is no longer ready.
    pub stop: Vec<String>,
    /// Devices to start a session for.
    pub start: Vec<Device>,
}

/// What to do about a device that a session should be started for.
#[derive(Debug)]
pub enum Attempt {
    /// It has one.
    Skip,
    /// Start one with these settings.
    Start(Config),
    /// None can be had; the device is put off, by so many seconds where that is
    /// worth mentioning.
    Refused(SpawnError, Option<u64>),
}

/// What to say while nothing runs.
#[derive(Debug)]
pub enum Idle {
    /// Nothing: it has been said, or something runs.
    Silent,
    NoDevice,
    /// The devices that are connected and not ready.
    Waiting(Vec<Device>),
}

/// The devices that are not ready, in order.
pub open spec fn unready_devices(devices: Seq<DeviceView>) -> Seq<DeviceView>
    decreases devices.len(),
{
    if devices.len() == 0 {
        Seq::empty()
    } else {
        let earlier = unready_devices(devices.drop_last());
        if devices.last().ready() {
            earlier
        } else {
            earlier.push(devices.last())
        }
    }
}

/// The wait after so many failures in a row.
pub open spec fn backoff_seconds(failures: int) -> int {
    2 * (if failures <= 8 {
        failures
    } else {
        8
    })
}

/// A device after one more failure.
pub open spec fn bumped(
    cooldowns: Map<Seq<char>, Cooldown>,
    serial: Seq<char>,
    now: u64,
) -> Cooldown {
    let failures: int = if cooldowns.contains_key(serial) {
        cooldowns[serial].failures + 1
    } else {
        1
    };
    Cooldown {
        failures: failures as u32,
        next_attempt: (now + backoff_seconds(failures) * SECOND_NS) as u64,
    }
}

/// Whether one more failure of a device can be counted.
pub open spec fn can_bump(
    cooldowns: Map<Seq<char>, Cooldown>,
    serial: Seq<char>,
    now: u64,
) -> bool {
    let failures: int = if cooldowns.contains_key(serial) {
        cooldowns[serial].failures + 1
    } else {
        1
    };
    &&& failures <= u32::MAX
    &&& now + backoff_seconds(failures) * SECOND_NS <= u64::MAX
}

/// The wait after one more failure, once it is worth mentioning.
pub open spec fn mentioned(
    cooldowns: Map<Seq<char>, Cooldown>,
    serial: Seq<char>,
    now: u64,
) -> Option<u64> {
    let next = bumped(cooldowns, serial, now);
    if next.failures > 2 {
        Some(backoff_seconds(next.failures as int) as u64)
    } else {
        None
    }
}

/// Count a failure of a device and put off its next attempt. The wait in
/// seconds is handed back once it is worth mentioning.
pub fn bump_cooldown(cooldowns: &mut Table<Cooldown>, serial: &str, now: u64) -> (r: Option<u64>)
    requires
        old(cooldowns).wf(),
        can_bump(old(cooldowns)@, serial@, now),
    ensures
        final(cooldowns).wf(),
        final(cooldowns)@ == old(cooldowns)@.insert(serial@, bumped(old(cooldowns)@, serial@, now)),
        r == mentioned(old(cooldowns)@, serial@, now),
{
    let failures: u32 = match cooldowns.get(serial) {
        Some(c) => c.failures + 1,
        None => 1,
    };
    let seconds: u64 = 2 * (if failures <= 8 {
        failures as u64
    } else {
        8
    });
    let next_attempt: u64 = now + seconds * SECOND_NS;
    cooldowns.insert(String::from_str(serial), Cooldown { failures, next_attempt });
    if failures > 2 {
        Some(seconds)
    } else {
        None
    }
}

fn is_ready_serial(devices: &Vec<Device>, serial: &str) -> (r: bool)
    ensures
        r == ready_serial(device_views(devices@), serial@),
{
    let ghost views = device_views(devices@);
    let mut i: usize = 0;
    while i < devices.len()
        invariant
            i <= devices@.len(),
            views == device_views(devices@),
            forall|j: int|
                0 <= j < i && #[trigger] views[j].ready() ==> views[j].serial != serial@,
        decreases devices@.len() - i,
    {
        assert(views[i as int] == devices@[i as int]@);
        if devices[i].is_ready() && same_str(devices[i].serial.as_str(), serial) {
            assert(views[i as int].ready());
            return true;
        }
        i += 1;
    }
    false
}

impl Registry {
    /// What holds between any two steps of the outer loop: every table has one
    /// entry per serial, and no two sessions share a port or an output name.
    pub open spec fn wf(self) -> bool {
        &&& self.sessions.wf()
        &&& self.cooldowns.wf()
        &&& self.seen_ready_at.wf()
        &&& distinct_ports(self.sessions.entries@)
        &&& distinct_names(self.sessions.entries@)
    }

    /// Nothing has changed but the sessions, the cooldowns and what has been
    /// announced.
    pub open spec fn same_watch(self, after: Registry) -> bool {
        &&& after.devices == self.devices
        &&& after.seen_ready_at == self.seen_ready_at
        &&& after.once_armed == self.once_armed
    }

    /// What the end of a session changes. A clean end forgives earlier failures;
    /// any other end, a panic included, counts as one more.
    pub open spec fn reaped(
        self,
        serial: Seq<char>,
        end: SessionEnd,
        now: u64,
        after: Registry,
        r: Option<u64>,
    ) -> bool {
        &&& self.same_watch(after)
        &&& after.announced_idle == self.announced_idle
        &&& after.sessions@ == self.sessions@.remove(serial)
        &&& if !self.sessions@.contains_key(serial) {
            after.cooldowns@ == self.cooldowns@ && r is None
        } else if end is Clean {
            after.cooldowns@ == self.cooldowns@.remove(serial) && r is None
        } else {
            &&& after.cooldowns@ == self.cooldowns@.insert(
                serial,
                bumped(self.cooldowns@, serial, now),
            )
            &&& r == mentioned(self.cooldowns@, serial, now)
        }
    }

    /// What news from the tracker changes; `r` says whether there is a list to
    /// compare with.
    pub open spec fn informed(self, event: TrackerEvent, after: Registry, r: bool) -> bool {
        match event {
            TrackerEvent::Update(list) => {
                &&& r
                &&& after == (Registry { devices: list, announced_idle: false, ..self })
            },
            TrackerEvent::Quiet => r && after == self,
            TrackerEvent::Lost => !r && after == self,
        }
    }

    /// What comparing the device list with the sessions changes, and asks for.
    pub open spec fn reconciled(
        self,
        once: bool,
        now: u64,
        after: Registry,
        r: Reconciliation,
    ) -> bool {
        let devices = device_views(self.devices@);
        let arming = once && !self.once_armed && any_debounced(
            devices,
            after.seen_ready_at@,
            now,
        );
        &&& after.devices == self.devices
        &&& after.cooldowns == self.cooldowns
        &&& after.announced_idle == self.announced_idle
        &&& after.seen_ready_at@ == seen_after(self.seen_ready_at@, devices, now)
        &&& after.sessions.entries@ == self.sessions.entries@.map_values(
            |e: (String, Running)| after_check(e, devices),
        )
        &&& strings(r.stop@) == vanished(self.sessions.entries@, devices)
        &&& after.once_armed == (self.once_armed || arming)
        &&& device_views(r.start@) == (if !once {
            wanting(devices, after.sessions@, after.seen_ready_at@, self.cooldowns@, now)
        } else if arming {
            ready_devices(devices)
        } else {
            Seq::empty()
        })
    }

    /// What looking at a device that should get a session changes, and asks for.
    pub open spec fn attempted(
        self,
        device: DeviceView,
        args: Args,
        now: u64,
        after: Registry,
        r: Attempt,
    ) -> bool {
        &&& self.same_watch(after)
        &&& after.announced_idle == self.announced_idle
        &&& after.sessions == self.sessions
        &&& r is Skip <==> self.sessions@.contains_key(device.serial)
        &&& match r {
            Attempt::Skip => after.cooldowns == self.cooldowns,
            Attempt::Start(config) => {
                &&& self.plans(device.serial, args, Ok::<Config, SpawnError>(config))
                &&& after.cooldowns == self.cooldowns
            },
            Attempt::Refused(e, wait) => {
                &&& self.plans(device.serial, args, Err::<Config, SpawnError>(e))
                &&& after.cooldowns@ == self.cooldowns@.insert(
                    device.serial,
                    bumped(self.cooldowns@, device.serial, now),
                )
                &&& wait == mentioned(self.cooldowns@, device.serial, now)
            },
        }
    }

    /// What the start of a session changes.
    pub open spec fn started(self, serial: Seq<char>, config: Config, after: Registry) -> bool {
        &&& self.same_watch(after)
        &&& after.cooldowns == self.cooldowns
        &&& !after.announced_idle
        &&& after.sessions@.contains_key(serial)
        &&& after.sessions@[serial].port == config.port
        &&& after.sessions@[serial].output_name@ == config.output_name@
        &&& !after.sessions@[serial].stopping
        &&& after.sessions@.remove(serial) == self.sessions@
    }

    /// What a session that could not be started changes.
    pub open spec fn put_off(
        self,
        serial: Seq<char>,
        now: u64,
        after: Registry,
        r: Option<u64>,
    ) -> bool {
        &&& self.same_watch(after)
        &&& after.announced_idle == self.announced_idle
        &&& after.sessions == self.sessions
        &&& after.cooldowns@ == self.cooldowns@.insert(
            serial,
            bumped(self.cooldowns@, serial, now),
        )
        &&& r == mentioned(self.cooldowns@, serial, now)
    }

    /// What there is to say while nothing runs.
    pub open spec fn idled(self, after: Registry, r: Idle) -> bool {
        let speak = self.sessions@ == Map::<Seq<char>, Running>::empty() && !self.announced_idle;
        &&& after == (Registry { announced_idle: speak || self.announced_idle, ..self })
        &&& r is Silent == !speak
        &&& r is NoDevice == (speak && self.devices@.len() == 0)
        &&& r matches Idle::Waiting(list) ==> device_views(list@) == unready_devices(
            device_views(self.devices@),
        )
    }

    /// Nothing is known yet.
    pub fn new() -> (r: Self)
        ensures
            r.wf(),
            r.devices@.len() == 0,
            r.sessions@ == Map::<Seq<char>, Running>::empty(),
            r.cooldowns@ == Map::<Seq<char>, Cooldown>::empty(),
            r.seen_ready_at@ == Map::<Seq<char>, u64>::empty(),
            !r.announced_idle,
            !r.once_armed,
    {
        Registry {
            devices: Vec::new(),
            sessions: Table::new(),
            cooldowns: Table::new(),
            seen_ready_at: Table::new(),
            announced_idle: false,
            once_armed: false,
        }
    }

    /// Whether a run that serves each device once is over.
    pub fn finished(&self, once: bool) -> (r: bool)
        requires
            self.wf(),
        ensures
            r == (once && self.once_armed && self.sessions@ == Map::<
                Seq<char>,
                Running,
            >::empty()),
    {
        once && self.once_armed && self.sessions.is_empty()
    }

    /// Take note that a session has ended. A clean end forgives earlier
    /// failures; any other end, a panic included, counts as one more.
    pub fn reap_finished(&mut self, serial: &str, end: SessionEnd, now: u64) -> (r: Option<u64>)
        requires
            old(self).wf(),
            old(self).sessions@.contains_key(serial@) && !(end is Clean) ==> can_bump(
                old(self).cooldowns@,
                serial@,
                now,
            ),
        ensures
            final(self).wf(),
            old(self).reaped(serial@, end, now, *final(self), r),
    {
        let at: usize = self.sessions.position(serial);
        if at == self.sessions.entries.len() {
            assert(self.sessions@ =~= old(self).sessions@.remove(serial@));
            return None;
        }
        let ghost before = self.sessions.entries@;
        let _ = self.sessions.remove_at(at);
        proof {
            let after = self.sessions.entries@;
            lemma_removal_keeps_distinct(before, at as int);
        }
        match end {
            SessionEnd::Clean => {
                let _ = self.cooldowns.remove(serial);
                None
            },
            SessionEnd::Failed => bump_cooldown(&mut self.cooldowns, serial, now),
            SessionEnd::Panicked => bump_cooldown(&mut self.cooldowns, serial, now),
        }
    }

    /// Take in news from the tracker. False means that there is nothing to
    /// compare with: losing the tracker is not losing the devices, so the last
    /// list is kept and every session goes on.
    pub fn on_tracker(&mut self, event: TrackerEvent) -> (r: bool)
        ensures
            old(self).informed(event, *final(self), r),
    {
        match event {
            TrackerEvent::Update(list) => {
                self.devices = list;
                self.announced_idle = false;
                true
            },
            TrackerEvent::Quiet => true,
            TrackerEvent::Lost => false,
        }
    }

    /// Bring `seen_ready_at` up to date.
    fn track_ready(&mut self, now: u64)
        requires
            old(self).wf(),
        ensures
            final(self).wf(),
            final(self).seen_ready_at@ == seen_after(
                old(self).seen_ready_at@,
                device_views(old(self).devices@),
                now,
            ),
            final(self).devices == old(self).devices,
            final(self).sessions == old(self).sessions,
            final(self).cooldowns == old(self).cooldowns,
            final(self).announced_idle == old(self).announced_idle,
            final(self).once_armed == old(self).once_armed,
    {
        let ghost views = device_views(self.devices@);
        let mut seen: Table<u64> = Table::new();
        let mut i: usize = 0;
        while i < self.devices.len()
            invariant
                i <= self.devices@.len(),
                *self == *old(self),
                self.wf(),
                seen.wf(),
                views == device_views(self.devices@),
                forall|k: Seq<char>| #[trigger]
                    seen@.contains_key(k) == ready_serial(views.take(i as int), k),
                forall|k: Seq<char>| #[trigger]
                    seen@.contains_key(k) ==> seen@[k] == (if self.seen_ready_at@.contains_key(k) {
                        self.seen_ready_at@[k]
                    } else {
                        now
                    }),
            decreases self.devices@.len() - i,
        {
            let device = &self.devices[i];
            let ghost upto = views.take(i as int);
            let ghost more = views.take(i + 1);
            let ghost before = seen@;
            assert(views[i as int] == device@);
            assert(more =~= upto.push(device@));
            if device.is_ready() {
                let since: u64 = match self.seen_ready_at.get(device.serial.as_str()) {
                    Some(t) => *t,
                    None => now,
                };
                seen.insert(device.serial.clone(), since);
            }
            assert forall|k: Seq<char>| #[trigger] seen@.contains_key(k) == ready_serial(
                more,
                k,
            ) by {
                assert(before.contains_key(k) == ready_serial(upto, k));
                if ready_serial(upto, k) {
                    let j = choose|j: int|
                        0 <= j < upto.len() && #[trigger] upto[j].ready() && upto[j].serial == k;
                    assert(more[j].ready() && more[j].serial == k);
                }
                if device@.ready() && device@.serial == k {
                    assert(more[i as int].ready() && more[i as int].serial == k);
                }
                if ready_serial(more, k) {
                    let j = choose|j: int|
                        0 <= j < more.len() && #[trigger] more[j].ready() && more[j].serial == k;
                    if j < i {
                        assert(upto[j].ready());
                    }
                }
            }
            assert forall|k: Seq<char>| #[trigger] seen@.contains_key(k) implies seen@[k] == (
            if self.seen_ready_at@.contains_key(k) {
                self.seen_ready_at@[k]
            } else {
                now
            }) by {
                if !(device@.ready() && k == device@.serial) {
                    assert(before.contains_key(k));
                }
            }
            i += 1;
        }
        assert(views.take(i as int) =~= views);
        assert(seen@ =~= seen_after(self.seen_ready_at@, views, now));
        self.seen_ready_at = seen;
    }

    /// Tell the sessions whose device is not ready to end.
    fn stop_vanished(&mut self) -> (r: Vec<String>)
        requires
            old(self).wf(),
        ensures
            final(self).wf(),
            strings(r@) == vanished(old(self).sessions.entries@, device_views(old(self).devices@)),
            final(self).sessions.entries@ == old(self).sessions.entries@.map_values(
                |e: (String, Running)| after_check(e, device_views(old(self).devices@)),
            ),
            final(self).devices == old(self).devices,
            final(self).cooldowns == old(self).cooldowns,
            final(self).seen_ready_at == old(self).seen_ready_at,
            final(self).announced_idle == old(self).announced_idle,
            final(self).once_armed == old(self).once_armed,
    {
        broadcast use lemma_map_push;

        let ghost views = device_views(self.devices@);
        let ghost before = self.sessions.entries@;
        let mut stop: Vec<String> = Vec::new();
        let mut i: usize = 0;
        while i < self.sessions.entries.len()
            invariant
                i <= self.sessions.entries@.len(),
                before == old(self).sessions.entries@,
                before.len() == self.sessions.entries@.len(),
                views == device_views(self.devices@),
                self.devices == old(self).devices,
                self.cooldowns == old(self).cooldowns,
                self.seen_ready_at == old(self).seen_ready_at,
                self.announced_idle == old(self).announced_idle,
                self.once_armed == old(self).once_armed,
                forall|j: int|
                    0 <= j < i ==> #[trigger] self.sessions.entries@[j] == after_check(
                        before[j],
                        views,
                    ),
                forall|j: int|
                    i <= j < before.len() ==> #[trigger] self.sessions.entries@[j] == before[j],
                strings(stop@) == vanished(before.take(i as int), views),
            decreases before.len() - i,
        {
            assert(before.take(i + 1).drop_last() =~= before.take(i as int));
            assert(self.sessions.entries@[i as int] == before[i as int]);
            if !is_ready_serial(&self.devices, self.sessions.entries[i].0.as_str()) {
                stop.push(self.sessions.entries[i].0.clone());
                self.sessions.entries[i].1.stopping = true;
            }
            i += 1;
        }
        proof {
            assert(before.take(i as int) =~= before);
            let after = self.sessions.entries@;
            assert(after =~= before.map_values(|e: (String, Running)| after_check(e, views)));
            lemma_same_identity_keeps_distinct(before, after);
        }
        stop
    }

    /// The ready devices.
    fn ready(&self) -> (r: Vec<Device>)
        ensures
            device_views(r@) == ready_devices(device_views(self.devices@)),
    {
        broadcast use lemma_map_push;

        let ghost views = device_views(self.devices@);
        let mut out: Vec<Device> = Vec::new();
        let mut i: usize = 0;
        while i < self.devices.len()
            invariant
                i <= self.devices@.len(),
                views == device_views(self.devices@),
                device_views(out@) == ready_devices(views.take(i as int)),
            decreases self.devices@.len() - i,
        {
            assert(views.take(i + 1).drop_last() =~= views.take(i as int));
            assert(views[i as int] == self.devices@[i as int]@);
            if self.devices[i].is_ready() {
                out.push(self.devices[i].copy());
            }
            i += 1;
        }
        assert(views.take(i as int) =~= views);
        out
    }

    fn is_debounced(&self, serial: &str, now: u64) -> (r: bool)
        requires
            self.wf(),
        ensures
            r == debounced(self.seen_ready_at@, serial@, now),
    {
        match self.seen_ready_at.get(serial) {
            Some(since) => now >= *since && now - *since >= SPAWN_DEBOUNCE_NS,
            None => false,
        }
    }

    fn some_debounced(&self, now: u64) -> (r: bool)
        requires
            self.wf(),
        ensures
            r == any_debounced(device_views(self.devices@), self.seen_ready_at@, now),
    {
        let ghost views = device_views(self.devices@);
        let mut i: usize = 0;
        while i < self.devices.len()
            invariant
                i <= self.devices@.len(),
                self.wf(),
                views == device_views(self.devices@),
                forall|j: int|
                    0 <= j < i && #[trigger] views[j].ready() ==> !debounced(
                        self.seen_ready_at@,
                        views[j].serial,
                        now,
                    ),
            decreases self.devices@.len() - i,
        {
            assert(views[i as int] == self.devices@[i as int]@);
            if self.devices[i].is_ready() && self.is_debounced(
                self.devices[i].serial.as_str(),
                now,
            ) {
                assert(views[i as int].ready());
                return true;
            }
            i += 1;
        }
        false
    }

    /// The devices that want a session.
    fn wanting_devices(&self, now: u64) -> (r: Vec<Device>)
        requires
            self.wf(),
        ensures
            device_views(r@) == wanting(
                device_views(self.devices@),
                self.sessions@,
                self.seen_ready_at@,
                self.cooldowns@,
                now,
            ),
    {
        broadcast use lemma_map_push;

        let ghost views = device_views(self.devices@);
        let mut out: Vec<Device> = Vec::new();
        let mut i: usize = 0;
        while i < self.devices.len()
            invariant
                i <= self.devices@.len(),
                self.wf(),
                views == device_views(self.devices@),
                device_views(out@) == wanting(
                    views.take(i as int),
                    self.sessions@,
                    self.seen_ready_at@,
                    self.cooldowns@,
                    now,
                ),
            decreases self.devices@.len() - i,
        {
            assert(views.take(i + 1).drop_last() =~= views.take(i as int));
            assert(views[i as int] == self.devices@[i as int]@);
            let device = &self.devices[i];
            let serial = device.serial.as_str();
            let cool = match self.cooldowns.get(serial) {
                Some(c) => now >= c.next_attempt,
                None => true,
            };
            if device.is_ready() && !self.sessions.contains(serial) && self.is_debounced(
                serial,
                now,
            ) && cool {
                out.push(device.copy());
            }
            i += 1;
        }
        assert(views.take(i as int) =~= views);
        out
    }

    /// Compare the device list with the running sessions.
    ///
    /// With `once`, the devices to serve are chosen a single time: as soon as
    /// any ready device has settled, everything ready at that instant is
    /// served, and later arrivals are not. Without, every ready device that has
    /// settled, has no session and is not being put off gets one.
    pub fn reconcile(&mut self, once: bool, now: u64) -> (r: Reconciliation)
        requires
            old(self).wf(),
        ensures
            final(self).wf(),
            old(self).reconciled(once, now, *final(self), r),
    {
        self.track_ready(now);
        let stop = self.stop_vanished();
        let start: Vec<Device> = if once {
            if !self.once_armed && self.some_debounced(now) {
                self.once_armed = true;
                self.ready()
            } else {
                let none: Vec<Device> = Vec::new();
                assert(device_views(none@) =~= Seq::<DeviceView>::empty());
                none
            }
        } else {
            self.wanting_devices(now)
        };
        Reconciliation { stop, start }
    }

    /// What planning a session must come to.
    pub open spec fn plans(
        self,
        serial: Seq<char>,
        args: Args,
        r: Result<Config, SpawnError>,
    ) -> bool {
        let entries = self.sessions.entries@;
        let base = args.config.output_name@;
        match r {
            Ok(config) => {
                &&& port_choice(entries, args.config.port, Ok::<u16, PortError>(config.port))
                &&& name_choice(
                    entries,
                    args.explicit_output_name,
                    base,
                    serial,
                    Ok::<String, NameError>(config.output_name),
                )
                &&& config@ == session_settings(args@, serial, config.port, config.output_name@)
            },
            Err(SpawnError::Port(e)) => port_choice(
                entries,
                args.config.port,
                Err::<u16, PortError>(e),
            ),
            Err(SpawnError::Name(e)) => {
                &&& exists|p: u16| #[trigger]
                    port_choice(entries, args.config.port, Ok::<u16, PortError>(p))
                &&& name_choice(
                    entries,
                    args.explicit_output_name,
                    base,
                    serial,
                    Err::<String, NameError>(e),
                )
            },
        }
    }

    /// Choose a fresh port and output name for the device and settle what its
    /// session does. Both are chosen against the sessions that run, so that a
    /// name or a port is spoken for exactly while its session runs.
    pub fn spawn_session(&self, serial: &str, args: &Args) -> (r: Result<Config, SpawnError>)
        requires
            self.wf(),
            args.wf(),
        ensures
            self.plans(serial@, *args, r),
    {
        let port: u16 = match allocate_port(&self.sessions, args.config.port) {
            Ok(port) => port,
            Err(e) => {
                return Err(SpawnError::Port(e));
            },
        };
        let output_name = match resolve_output_name(
            args.explicit_output_name,
            args.config.output_name.as_str(),
            serial,
            &self.sessions,
        ) {
            Ok(name) => name,
            Err(e) => {
                return Err(SpawnError::Name(e));
            },
        };
        let mut config = args.config.copy();
        config.port = port;
        config.output_name = output_name;
        let cs = chars_of(serial);
        let low = to_lower(cs.as_slice());
        let key = string_of(low.as_slice());
        match args.brightness_overrides.get(key.as_str()) {
            Some(percent) => {
                config.brightness = Some(*percent);
            },
            None => {},
        }
        match args.rotation_overrides.get(key.as_str()) {
            Some(degrees) => {
                config.rotation = *degrees;
            },
            None => {},
        }
        Ok(config)
    }

    /// Whether a device has a session.
    pub fn has_session(&self, serial: &str) -> (r: bool)
        requires
            self.wf(),
        ensures
            r == self.sessions@.contains_key(serial@),
    {
        self.sessions.contains(serial)
    }

    /// What to do about a device that a session should be started for. One that
    /// has a session in the meantime is passed over; one that no session can be
    /// planned for is put off.
    pub fn attempt(&mut self, device: &Device, args: &Args, now: u64) -> (r: Attempt)
        requires
            old(self).wf(),
            args.wf(),
            !old(self).sessions@.contains_key(device.serial@) ==> can_bump(
                old(self).cooldowns@,
                device.serial@,
                now,
            ),
        ensures
            final(self).wf(),
            old(self).attempted(device@, *args, now, *final(self), r),
    {
        if self.sessions.contains(device.serial.as_str()) {
            return Attempt::Skip;
        }
        match self.spawn_session(device.serial.as_str(), args) {
            Ok(config) => Attempt::Start(config),
            Err(e) => {
                let wait = bump_cooldown(&mut self.cooldowns, device.serial.as_str(), now);
                Attempt::Refused(e, wait)
            },
        }
    }

    /// Take note that a session runs on the port and under the name that were
    /// chosen for it.
    pub fn session_started(&mut self, serial: &str, config: &Config)
        requires
            old(self).wf(),
            !old(self).sessions@.contains_key(serial@),
            !port_taken(old(self).sessions.entries@, config.port as int),
            !name_taken(old(self).sessions.entries@, config.output_name@),
        ensures
            final(self).wf(),
            old(self).started(serial@, *config, *final(self)),
    {
        let ghost before = self.sessions.entries@;
        let running = Running {
            port: config.port,
            output_name: config.output_name.clone(),
            stopping: false,
        };
        self.sessions.insert_new(String::from_str(serial), running);
        self.announced_idle = false;
        proof {
            let after = self.sessions.entries@;
            assert forall|i: int, j: int| 0 <= i < j < after.len() implies #[trigger] after[i].1.port
                != #[trigger] after[j].1.port by {
                assert(after[i] == before[i]);
                if j < before.len() {
                    assert(after[j] == before[j]);
                }
            }
            assert forall|i: int, j: int| 0 <= i < j < after.len() implies #[trigger] after[i].1.output_name@
                != #[trigger] after[j].1.output_name@ by {
                assert(after[i] == before[i]);
                if j < before.len() {
                    assert(after[j] == before[j]);
                    assert(before[i].1.output_name@ != before[j].1.output_name@);
                } else {
                    assert(after[j].1.output_name@ == config.output_name@);
                    assert(before[i].1.output_name@ != config.output_name@);
                }
            }
            assert(self.sessions@.remove(serial@) =~= old(self).sessions@);
        }
    }

    /// Take note that no session could be started for a device.
    pub fn spawn_failed(&mut self, serial: &str, now: u64) -> (r: Option<u64>)
        requires
            old(self).wf(),
            can_bump(old(self).cooldowns@, serial@, now),
        ensures
            final(self).wf(),
            old(self).put_off(serial@, now, *final(self), r),
    {
        bump_cooldown(&mut self.cooldowns, serial, now)
    }

    /// What to say while nothing runs; it is said once until something changes.
    pub fn announce_idle(&mut self) -> (r: Idle)
        requires
            old(self).wf(),
        ensures
            final(self).wf(),
            old(self).idled(*final(self), r),
    {
        broadcast use lemma_map_push;

        if !self.sessions.is_empty() || self.announced_idle {
            return Idle::Silent;
        }
        self.announced_idle = true;
        if self.devices.len() == 0 {
            return Idle::NoDevice;
        }
        let ghost views = device_views(self.devices@);
        let mut out: Vec<Device> = Vec::new();
        let mut i: usize = 0;
        while i < self.devices.len()
            invariant
                i <= self.devices@.len(),
                views == device_views(self.devices@),
                device_views(out@) == unready_devices(views.take(i as int)),
            decreases self.devices@.len() - i,
        {
            assert(views.take(i + 1).drop_last() =~= views.take(i as int));
            assert(views[i as int] == self.devices@[i as int]@);
            if !self.devices[i].is_ready() {
                out.push(self.devices[i].copy());
            }
            i += 1;
        }
        assert(views.take(i as int) =~= views);
        Idle::Waiting(out)
    }
}

/// One cause in the chain of an error from the tracker.
#[derive(Debug, Clone, Copy, PartialEq, Eq, Structural)]
pub enum Cause {
    WouldBlock,
    TimedOut,
    /// Any other error of input or output.
    OtherIo,
    /// Not an error of input or output.
    NotIo,
}

/// Whether an error only says that nothing came in time.
pub fn is_timeout(chain: &Vec<Cause>) -> (r: bool)
    ensures
        r == exists|i: int|
            0 <= i < chain@.len() && (#[trigger] chain@[i] == Cause::WouldBlock || chain@[i]
                == Cause::TimedOut),
{
    let mut i: usize = 0;
    while i < chain.len()
        invariant
            i <= chain@.len(),
            forall|j: int|
                0 <= j < i ==> #[trigger] chain@[j] != Cause::WouldBlock && chain@[j]
                    != Cause::TimedOut,
        decreases chain@.len() - i,
    {
        if chain[i] == Cause::WouldBlock || chain[i] == Cause::TimedOut {
            return true;
        }
        i += 1;
    }
    false
}

/// What a panic carried.
#[derive(Debug)]
pub enum PanicPayload {
    Text(String),
    Other,
}

/// The words of a panic.
pub fn panic_message(payload: &PanicPayload) -> (r: String)
    ensures
        r@ == match payload {
            PanicPayload::Text(text) => text@,
            PanicPayload::Other => "<non-string panic payload>"@,
        },
{
    match payload {
        PanicPayload::Text(text) => text.clone(),
        PanicPayload::Other => String::from_str("<non-string panic payload>"),
    }
}

// ------------------------------------------------------------------- laws ---

/// A session is started for a device exactly when it is on the list, ready,
/// settled, not being served and not being put off.
pub proof fn started_devices_are_those_that_want_it(
    devices: Seq<DeviceView>,
    sessions: Map<Seq<char>, Running>,
    seen: Map<Seq<char>, u64>,
    cooldowns: Map<Seq<char>, Cooldown>,
    now: u64,
    device: DeviceView,
)
    ensures
        wanting(devices, sessions, seen, cooldowns, now).contains(device) <==> devices.contains(
            device,
        ) && wants_session(device, sessions, seen, cooldowns, now),
    decreases devices.len(),
{
    let all = wanting(devices, sessions, seen, cooldowns, now);
    if devices.len() > 0 {
        let head = devices.drop_last();
        let earlier = wanting(head, sessions, seen, cooldowns, now);
        started_devices_are_those_that_want_it(head, sessions, seen, cooldowns, now, device);
        assert(devices =~= head.push(devices.last()));
        lemma_push_contains(head, devices.last(), device);
        lemma_push_contains(earlier, devices.last(), device);
    }
}

/// With `--once`, the devices served are exactly the ready ones on the list.
pub proof fn once_serves_everything_ready(devices: Seq<DeviceView>, device: DeviceView)
    ensures
        ready_devices(devices).contains(device) <==> devices.contains(device) && device.ready(),
    decreases devices.len(),
{
    if devices.len() > 0 {
        let head = devices.drop_last();
        once_serves_everything_ready(head, device);
        assert(devices =~= head.push(devices.last()));
        lemma_push_contains(head, devices.last(), device);
        lemma_push_contains(ready_devices(head), devices.last(), device);
    }
}

/// The sessions told to end are exactly those whose device is not ready.
pub proof fn stopped_sessions_are_those_that_lost_their_device(
    entries: Seq<(String, Running)>,
    devices: Seq<DeviceView>,
    serial: Seq<char>,
)
    ensures
        vanished(entries, devices).contains(serial) <==> !ready_serial(devices, serial) && exists|
            i: int,
        |
            0 <= i < entries.len() && #[trigger] entries[i].0@ == serial,
    decreases entries.len(),
{
    if entries.len() > 0 {
        let head = entries.drop_last();
        let last = entries.last();
        stopped_sessions_are_those_that_lost_their_device(head, devices, serial);
        lemma_push_contains(vanished(head, devices), last.0@, serial);
        if exists|i: int| 0 <= i < head.len() && #[trigger] head[i].0@ == serial {
            let i = choose|i: int| 0 <= i < head.len() && #[trigger] head[i].0@ == serial;
            assert(entries[i].0@ == serial);
        }
        assert(entries[entries.len() - 1] == last);
        if exists|i: int| 0 <= i < entries.len() && #[trigger] entries[i].0@ == serial {
            let i = choose|i: int| 0 <= i < entries.len() && #[trigger] entries[i].0@ == serial;
            if i < head.len() {
                assert(head[i].0@ == serial);
            }
        }
    }
}

proof fn lemma_push_contains<A>(s: Seq<A>, a: A, x: A)
    ensures
        s.push(a).contains(x) <==> s.contains(x) || a == x,
{
    let t = s.push(a);
    if s.contains(x) {
        let i = choose|i: int| 0 <= i < s.len() && s[i] == x;
        assert(t[i] == x);
    }
    assert(t[s.len() as int] == a);
    if t.contains(x) {
        let i = choose|i: int| 0 <= i < t.len() && t[i] == x;
        if i < s.len() {
            assert(s[i] == x);
        }
    }
}

/// A device that has just become ready has to wait, and one that drops out
/// starts over.
pub proof fn newcomers_wait(
    seen: Map<Seq<char>, u64>,
    devices: Seq<DeviceView>,
    serial: Seq<char>,
    now: u64,
)
    ensures
        !seen.contains_key(serial) ==> !debounced(seen_after(seen, devices, now), serial, now),
        !ready_serial(devices, serial) ==> !seen_after(seen, devices, now).contains_key(serial),
{
}

/// The choice of a port is determined by the sessions that run.
pub proof fn port_choice_is_determined(
    entries: Seq<(String, Running)>,
    base: u16,
    a: Result<u16, PortError>,
    b: Result<u16, PortError>,
)
    requires
        port_choice(entries, base, a),
        port_choice(entries, base, b),
    ensures
        a == b,
{
    match (a, b) {
        (Ok(p), Ok(q)) => {
            assert(p < q ==> port_taken(entries, p as int));
            assert(q < p ==> port_taken(entries, q as int));
        },
        (Ok(p), Err(_)) => {
            assert(port_taken(entries, p as int));
        },
        (Err(_), Ok(q)) => {
            assert(port_taken(entries, q as int));
        },
        _ => {},
    }
}

/// A port is found as long as fewer sessions run than the range has ports.
pub proof fn port_is_found_while_range_lasts(
    entries: Seq<(String, Running)>,
    base: u16,
    r: Result<u16, PortError>,
)
    requires
        port_choice(entries, base, r),
        entries.len() < PORT_RANGE,
        base + PORT_RANGE <= 0x1_0000,
    ensures
        r is Ok,
{
    if !(r is Ok) {
        let ports = entries.map_values(|e: (String, Running)| e.1.port as int);
        let wanted = vstd::set_lib::set_int_range(base as int, base + PORT_RANGE);
        vstd::set_lib::lemma_int_range(base as int, base + PORT_RANGE);
        ports.lemma_cardinality_of_set();
        assert forall|p: int| wanted.contains(p) implies ports.to_set().contains(p) by {
            assert(port_taken(entries, p));
            let i = choose|i: int| 0 <= i < entries.len() && #[trigger] entries[i].1.port == p;
            assert(ports[i] == p);
        }
        vstd::set_lib::lemma_len_subset(wanted, ports.to_set());
    }
}

/// The wait grows with every failure and stays between two and sixteen seconds.
pub proof fn backoff_is_bounded(failures: int)
    requires
        failures >= 1,
    ensures
        2 <= backoff_seconds(failures) <= 16,
        backoff_seconds(failures) <= backoff_seconds(failures + 1),
        failures < 8 ==> backoff_seconds(failures) < backoff_seconds(failures + 1),
{
}

/// A failure of one device leaves every other device as it was.
pub proof fn failures_are_kept_apart(
    cooldowns: Map<Seq<char>, Cooldown>,
    serial: Seq<char>,
    other: Seq<char>,
    now: u64,
    later: u64,
)
    requires
        other != serial,
    ensures
        cooled_down(
            cooldowns.insert(serial, bumped(cooldowns, serial, now)),
            other,
            later,
        ) == cooled_down(cooldowns, other, later),
{
}

/// A setting for one device reaches it however its serial is spelled.
pub proof fn overrides_ignore_case(
    args: ArgsView,
    a: Seq<char>,
    b: Seq<char>,
    port: u16,
    name: Seq<char>,
)
    requires
        lowered(a) == lowered(b),
    ensures
        session_settings(args, a, port, name) == session_settings(args, b, port, name),
        session_settings(args, lowered(a), port, name) == session_settings(args, a, port, name),
{
    assert(lowered(lowered(a)) =~= lowered(a));
}

/// A session that is planned shares neither its port nor its output name with a
/// session that runs, so that it can be started.
pub proof fn planned_sessions_collide_with_none(
    r: Registry,
    serial: Seq<char>,
    args: Args,
    config: Config,
)
    requires
        r.plans(serial, args, Ok::<Config, SpawnError>(config)),
    ensures
        !port_taken(r.sessions.entries@, config.port as int),
        !name_taken(r.sessions.entries@, config.output_name@),
{
}

/// A session that is planned from valid settings has a rotation and a
/// brightness that the tablet can take, whichever device it is for.
pub proof fn planned_sessions_are_valid(
    args: ArgsView,
    serial: Seq<char>,
    port: u16,
    name: Seq<char>,
)
    requires
        valid_settings(args.config, args.brightness_overrides, args.rotation_overrides),
    ensures
        is_rotation(session_settings(args, serial, port, name).rotation),
        session_settings(args, serial, port, name).brightness matches Some(percent) ==> percent
            <= 100,
{
}

proof fn lemma_removal_keeps_distinct(before: Seq<(String, Running)>, at: int)
    requires
        0 <= at < before.len(),
        distinct_ports(before),
        distinct_names(before),
    ensures
        distinct_ports(before.remove(at)),
        distinct_names(before.remove(at)),
{
    let after = before.remove(at);
    assert forall|i: int, j: int| 0 <= i < j < after.len() implies #[trigger] after[i].1.port
        != #[trigger] after[j].1.port by {
        let i0 = if i < at {
            i
        } else {
            i + 1
        };
        let j0 = if j < at {
            j
        } else {
            j + 1
        };
        assert(before[i0].1.port != before[j0].1.port);
    }
    assert forall|i: int, j: int| 0 <= i < j < after.len() implies #[trigger] after[i].1.output_name@
        != #[trigger] after[j].1.output_name@ by {
        let i0 = if i < at {
            i
        } else {
            i + 1
        };
        let j0 = if j < at {
            j
        } else {
            j + 1
        };
        assert(before[i0].1.output_name@ != before[j0].1.output_name@);
    }
}

proof fn lemma_same_identity_keeps_distinct(
    before: Seq<(String, Running)>,
    after: Seq<(String, Running)>,
)
    requires
        before.len() == after.len(),
        distinct_keys(before),
        distinct_ports(before),
        distinct_names(before),
        forall|i: int|
            0 <= i < before.len() ==> #[trigger] after[i].0 == before[i].0 && after[i].1.port
                == before[i].1.port && after[i].1.output_name == before[i].1.output_name,
    ensures
        distinct_keys(after),
        distinct_ports(after),
        distinct_names(after),
{
    assert forall|i: int, j: int| 0 <= i < j < after.len() implies #[trigger] after[i].0@
        != #[trigger] after[j].0@ by {
        assert(before[i].0@ != before[j].0@);
    }
    assert forall|i: int, j: int| 0 <= i < j < after.len() implies #[trigger] after[i].1.port
        != #[trigger] after[j].1.port by {
        assert(after[i].0 == before[i].0 && after[j].0 == before[j].0);
        assert(before[i].1.port != before[j].1.port);
    }
    assert forall|i: int, j: int| 0 <= i < j < after.len() implies #[trigger] after[i].1.output_name@
        != #[trigger] after[j].1.output_name@ by {
        assert(after[i].0 == before[i].0 && after[j].0 == before[j].0);
        assert(before[i].1.output_name@ != before[j].1.output_name@);
    }
}

// ------------------------------------------------------ what a look decides ---

/// Whether a device of the list is ready: its state is `device`, and no other.
pub open spec fn has_ready(devices: Seq<Device>, serial: Seq<char>) -> bool {
    exists|i: int|
        0 <= i < devices.len() && (#[trigger] devices[i]).state@ == "device"@ && devices[i].serial@
            == serial
}

/// Whether a session runs for a device.
pub open spec fn has_entry(entries: Seq<(String, Running)>, serial: Seq<char>) -> bool {
    exists|i: int| 0 <= i < entries.len() && (#[trigger] entries[i]).0@ == serial
}

/// Whether a device of a list has a serial.
pub open spec fn has_serial(devices: Seq<Device>, serial: Seq<char>) -> bool {
    exists|i: int| 0 <= i < devices.len() && (#[trigger] devices[i]).serial@ == serial
}

proof fn lemma_ready(devices: Seq<Device>, serial: Seq<char>)
    ensures
        has_ready(devices, serial) <==> ready_serial(device_views(devices), serial),
{
    let views = device_views(devices);
    if has_ready(devices, serial) {
        let i = choose|i: int|
            0 <= i < devices.len() && (#[trigger] devices[i]).state@ == "device"@
                && devices[i].serial@ == serial;
        assert(views[i].ready() && views[i].serial == serial);
    }
    if ready_serial(views, serial) {
        let i = choose|i: int|
            0 <= i < views.len() && #[trigger] views[i].ready() && views[i].serial == serial;
        assert(devices[i].state@ == "device"@);
    }
}

proof fn lemma_checked_keys(
    entries: Seq<(String, Running)>,
    after: Seq<(String, Running)>,
    devices: Seq<DeviceView>,
    key: Seq<char>,
)
    requires
        after == entries.map_values(|e: (String, Running)| after_check(e, devices)),
    ensures
        crate::table::lookup(after, key) is Some <==> crate::table::lookup(entries, key) is Some,
    decreases entries.len(),
{
    if entries.len() > 0 {
        assert(after.drop_last() =~= entries.drop_last().map_values(
            |e: (String, Running)| after_check(e, devices),
        ));
        lemma_checked_keys(entries.drop_last(), after.drop_last(), devices, key);
    }
}

proof fn lemma_listed(list: Seq<Device>, views: Seq<DeviceView>, serial: Seq<char>)
    requires
        device_views(list) == views,
    ensures
        has_serial(list, serial) <==> exists|d: DeviceView| #[trigger]
            views.contains(d) && d.serial == serial,
{
    if has_serial(list, serial) {
        let i = choose|i: int| 0 <= i < list.len() && (#[trigger] list[i]).serial@ == serial;
        assert(views[i] == list[i]@);
        assert(views.contains(views[i]));
    }
    if exists|d: DeviceView| #[trigger] views.contains(d) && d.serial == serial {
        let d = choose|d: DeviceView| #[trigger] views.contains(d) && d.serial == serial;
        let i = views.index_of(d);
        assert(list[i].serial@ == serial);
    }
}

/// A session is started for a device exactly where the device is ready, has been
/// for 600 ms on end, has no session, and is not being put off.
pub proof fn sessions_start_for_steady_devices(
    g: Registry,
    now: u64,
    after: Registry,
    r: Reconciliation,
    serial: Seq<char>,
)
    requires
        g.reconciled(false, now, after, r),
    ensures
        has_serial(r.start@, serial) <==> {
            &&& has_ready(g.devices@, serial)
            &&& !g.sessions@.contains_key(serial)
            &&& g.seen_ready_at@.contains_key(serial) && now >= g.seen_ready_at@[serial]
                + 600_000_000
            &&& g.cooldowns@.contains_key(serial) ==> now >= g.cooldowns@[serial].next_attempt
        },
{
    let views = device_views(g.devices@);
    let seen = after.seen_ready_at@;
    let sessions = after.sessions@;
    lemma_ready(g.devices@, serial);
    lemma_checked_keys(g.sessions.entries@, after.sessions.entries@, views, serial);
    let started = wanting(views, sessions, seen, g.cooldowns@, now);
    lemma_listed(r.start@, started, serial);
    if has_serial(r.start@, serial) {
        let d = choose|d: DeviceView| #[trigger] started.contains(d) && d.serial == serial;
        started_devices_are_those_that_want_it(views, sessions, seen, g.cooldowns@, now, d);
        let i = views.index_of(d);
        assert(views[i].ready());
    }
    if has_ready(g.devices@, serial) {
        let i = choose|i: int|
            0 <= i < views.len() && #[trigger] views[i].ready() && views[i].serial == serial;
        assert(views.contains(views[i]));
        started_devices_are_those_that_want_it(views, sessions, seen, g.cooldowns@, now, views[i]);
    }
}

/// A session is told to end exactly where its device is not ready any more, and is
/// then marked as ending; every session keeps its port and its name.
pub proof fn sessions_stop_with_their_devices(
    g: Registry,
    once: bool,
    now: u64,
    after: Registry,
    r: Reconciliation,
    serial: Seq<char>,
)
    requires
        g.reconciled(once, now, after, r),
    ensures
        strings(r.stop@).contains(serial) <==> has_entry(g.sessions.entries@, serial)
            && !has_ready(g.devices@, serial),
        after.sessions.entries@.len() == g.sessions.entries@.len(),
        forall|i: int|
            0 <= i < g.sessions.entries@.len() ==> {
                let was = g.sessions.entries@[i];
                let is = #[trigger] after.sessions.entries@[i];
                &&& is.0@ == was.0@ && is.1.port == was.1.port && is.1.output_name@
                    == was.1.output_name@
                &&& is.1.stopping <==> was.1.stopping || !has_ready(g.devices@, was.0@)
            },
        after.devices == g.devices && after.cooldowns == g.cooldowns,
{
    let views = device_views(g.devices@);
    lemma_ready(g.devices@, serial);
    stopped_sessions_are_those_that_lost_their_device(g.sessions.entries@, views, serial);
    assert forall|i: int| 0 <= i < g.sessions.entries@.len() implies {
        let was = g.sessions.entries@[i];
        let is = #[trigger] after.sessions.entries@[i];
        &&& is.0@ == was.0@ && is.1.port == was.1.port && is.1.output_name@ == was.1.output_name@
        &&& is.1.stopping <==> was.1.stopping || !has_ready(g.devices@, was.0@)
    } by {
        lemma_ready(g.devices@, g.sessions.entries@[i].0@);
    }
}

/// How long a device has been ready is counted from the first look at which it was
/// ready and has been at every look since; a device that is not ready counts from
/// the start again.
pub proof fn readiness_is_counted_from_its_start(
    g: Registry,
    once: bool,
    now: u64,
    after: Registry,
    r: Reconciliation,
    serial: Seq<char>,
)
    requires
        g.reconciled(once, now, after, r),
    ensures
        after.seen_ready_at@.contains_key(serial) <==> has_ready(g.devices@, serial),
        has_ready(g.devices@, serial) ==> after.seen_ready_at@[serial] == if
            g.seen_ready_at@.contains_key(serial) {
            g.seen_ready_at@[serial]
        } else {
            now
        },
{
    lemma_ready(g.devices@, serial);
}

/// With `--once` sessions are started at one look only: the first at which some
/// device has been ready for 600 ms. All that are ready then get one.
pub proof fn once_starts_at_one_look(
    g: Registry,
    now: u64,
    after: Registry,
    r: Reconciliation,
    serial: Seq<char>,
)
    requires
        g.reconciled(true, now, after, r),
    ensures
        g.once_armed ==> r.start@.len() == 0 && after.once_armed,
        !g.once_armed ==> (after.once_armed <==> exists|s: Seq<char>| #[trigger]
            has_ready(g.devices@, s) && g.seen_ready_at@.contains_key(s) && now
                >= g.seen_ready_at@[s] + 600_000_000),
        !g.once_armed ==> (has_serial(r.start@, serial) <==> after.once_armed && has_ready(
            g.devices@,
            serial,
        )),
{
    let views = device_views(g.devices@);
    let arming = any_debounced(views, after.seen_ready_at@, now);
    lemma_ready(g.devices@, serial);
    if arming {
        let i = choose|i: int|
            0 <= i < views.len() && #[trigger] views[i].ready() && debounced(
                after.seen_ready_at@,
                views[i].serial,
                now,
            );
        let s = views[i].serial;
        lemma_ready(g.devices@, s);
        assert(has_ready(g.devices@, s));
    }
    if exists|s: Seq<char>| #[trigger]
        has_ready(g.devices@, s) && g.seen_ready_at@.contains_key(s) && now >= g.seen_ready_at@[s]
            + 600_000_000 {
        let s = choose|s: Seq<char>| #[trigger]
            has_ready(g.devices@, s) && g.seen_ready_at@.contains_key(s) && now
                >= g.seen_ready_at@[s] + 600_000_000;
        lemma_ready(g.devices@, s);
        let i = choose|i: int|
            0 <= i < views.len() && #[trigger] views[i].ready() && views[i].serial == s;
        assert(debounced(after.seen_ready_at@, views[i].serial, now));
    }
    if !g.once_armed && arming {
        let ready = ready_devices(views);
        lemma_listed(r.start@, ready, serial);
        if has_serial(r.start@, serial) {
            let d = choose|d: DeviceView| #[trigger] ready.contains(d) && d.serial == serial;
            once_serves_everything_ready(views, d);
            let i = views.index_of(d);
            assert(views[i].ready());
        }
        if has_ready(g.devices@, serial) {
            let i = choose|i: int|
                0 <= i < views.len() && #[trigger] views[i].ready() && views[i].serial == serial;
            assert(views.contains(views[i]));
            once_serves_everything_ready(views, views[i]);
        }
    } else {
        assert(r.start@.len() == 0) by {
            assert(device_views(r.start@).len() == r.start@.len());
        }
    }
}

/// A session that failed is one more failure of its device, which is then put off
/// for two seconds more with each up to sixteen; one that ended in order clears
/// them. Either way it is gone, and nothing else is.
pub proof fn ended_sessions_are_accounted_for(
    g: Registry,
    serial: Seq<char>,
    end: SessionEnd,
    now: u64,
    after: Registry,
    r: Option<u64>,
    other: Seq<char>,
)
    requires
        g.reaped(serial, end, now, after, r),
        g.sessions@.contains_key(serial),
        other != serial,
        g.cooldowns@.contains_key(serial) ==> g.cooldowns@[serial].failures < u32::MAX,
        now + 16_000_000_000 <= u64::MAX,
    ensures
        !after.sessions@.contains_key(serial),
        after.sessions@.contains_key(other) <==> g.sessions@.contains_key(other),
        g.sessions@.contains_key(other) ==> after.sessions@[other] == g.sessions@[other],
        after.cooldowns@.contains_key(other) <==> g.cooldowns@.contains_key(other),
        g.cooldowns@.contains_key(other) ==> after.cooldowns@[other] == g.cooldowns@[other],
        end == SessionEnd::Clean ==> !after.cooldowns@.contains_key(serial) && r is None,
        end != SessionEnd::Clean ==> after.cooldowns@.contains_key(serial) && ({
            let before = if g.cooldowns@.contains_key(serial) {
                g.cooldowns@[serial].failures as int
            } else {
                0
            };
            let c = after.cooldowns@[serial];
            &&& c.failures == before + 1
            &&& c.failures <= 8 ==> c.next_attempt == now + c.failures * 2_000_000_000
            &&& c.failures > 8 ==> c.next_attempt == now + 16_000_000_000
            &&& r is Some <==> c.failures > 2
            &&& r matches Some(seconds) ==> c.next_attempt == now + seconds * 1_000_000_000
        }),
{
}

/// A device whose session could not be had is put off in the same way.
pub proof fn refused_devices_are_put_off(
    g: Registry,
    serial: Seq<char>,
    now: u64,
    after: Registry,
    r: Option<u64>,
)
    requires
        g.put_off(serial, now, after, r),
        g.cooldowns@.contains_key(serial) ==> g.cooldowns@[serial].failures < u32::MAX,
        now + 16_000_000_000 <= u64::MAX,
    ensures
        after.sessions == g.sessions,
        after.cooldowns@.contains_key(serial),
        ({
            let before = if g.cooldowns@.contains_key(serial) {
                g.cooldowns@[serial].failures as int
            } else {
                0
            };
            let c = after.cooldowns@[serial];
            &&& c.failures == before + 1
            &&& c.failures <= 8 ==> c.next_attempt == now + c.failures * 2_000_000_000
            &&& c.failures > 8 ==> c.next_attempt == now + 16_000_000_000
            &&& r is Some <==> c.failures > 2
        }),
{
}

/// A session that was started is there under its serial, with its port and its
/// name, and has not been told to end.
pub proof fn started_sessions_are_listed(
    g: Registry,
    serial: Seq<char>,
    config: Config,
    after: Registry,
    other: Seq<char>,
)
    requires
        g.started(serial, config, after),
        other != serial,
    ensures
        after.sessions@.contains_key(serial),
        after.sessions@[serial].port == config.port,
        after.sessions@[serial].output_name@ == config.output_name@,
        !after.sessions@[serial].stopping,
        after.sessions@.contains_key(other) <==> g.sessions@.contains_key(other),
        g.sessions@.contains_key(other) ==> after.sessions@[other] == g.sessions@[other],
        after.cooldowns == g.cooldowns && after.devices == g.devices,
{
    let rest = after.sessions@.remove(serial);
    assert(rest.contains_key(other) <==> after.sessions@.contains_key(other));
    assert(rest.contains_key(other) ==> rest[other] == after.sessions@[other]);
}

/// What a planned session does is what was asked for, but for its own port and
/// name, and for the brightness and the rotation that were asked for its device.
pub proof fn planned_sessions_do_what_was_asked(
    g: Registry,
    serial: Seq<char>,
    args: Args,
    config: Config,
)
    requires
        g.plans(serial, args, Ok::<Config, SpawnError>(config)),
    ensures
        ({
            let c = config@;
            let a = args.config@;
            let key = lowered(serial);
            &&& c.resolution == a.resolution && c.max_width == a.max_width && c.fps == a.fps
                && c.bitrate_kbps == a.bitrate_kbps
            &&& c.position_x == a.position_x && c.position_y == a.position_y
            &&& c.paint_cursor == a.paint_cursor && c.stats == a.stats && c.json_output
                == a.json_output
            &&& c.enable_touch == a.enable_touch && c.touch_mode == a.touch_mode
            &&& args.brightness_overrides@.contains_key(key) ==> c.brightness == Some(
                args.brightness_overrides@[key],
            )
            &&& !args.brightness_overrides@.contains_key(key) ==> c.brightness == a.brightness
            &&& args.rotation_overrides@.contains_key(key) ==> c.rotation
                == args.rotation_overrides@[key]
            &&& !args.rotation_overrides@.contains_key(key) ==> c.rotation == a.rotation
        }),
{
}

/// A planned session has the lowest port, from the first of the range on, that no
/// session uses; with none running that is the first itself.
pub proof fn planned_ports_are_the_lowest_free(
    g: Registry,
    serial: Seq<char>,
    args: Args,
    config: Config,
    lower: u16,
)
    requires
        g.plans(serial, args, Ok::<Config, SpawnError>(config)),
    ensures
        args.config.port <= config.port < args.config.port + 100,
        forall|i: int|
            0 <= i < g.sessions.entries@.len() ==> (#[trigger] g.sessions.entries@[i]).1.port
                != config.port,
        args.config.port <= lower < config.port ==> exists|i: int|
            0 <= i < g.sessions.entries@.len() && #[trigger] g.sessions.entries@[i].1.port == lower,
        g.sessions.entries@.len() == 0 ==> config.port == args.config.port,
{
    let entries = g.sessions.entries@;
    assert(!port_taken(entries, config.port as int));
    if args.config.port <= lower < config.port {
        assert(port_taken(entries, lower as int));
    }
    if entries.len() == 0 && config.port != args.config.port {
        assert(port_taken(entries, args.config.port as int));
    }
}

/// A planned session has a name that no session uses: the one that was asked for
/// where one was, or that nothing holds; else the name with what sets its device
/// apart.
pub proof fn planned_names_are_free(g: Registry, serial: Seq<char>, args: Args, config: Config)
    requires
        g.plans(serial, args, Ok::<Config, SpawnError>(config)),
    ensures
        ({
            let entries = g.sessions.entries@;
            let base = args.config.output_name@;
            let held = exists|i: int|
                0 <= i < entries.len() && (#[trigger] entries[i]).1.output_name@ == base;
            &&& forall|i: int|
                0 <= i < entries.len() ==> (#[trigger] entries[i]).1.output_name@
                    != config.output_name@
            &&& args.explicit_output_name ==> config.output_name@ == base
            &&& !held ==> config.output_name@ == base
            &&& held ==> begins_with_dash(config.output_name@, base)
        }),
{
    let entries = g.sessions.entries@;
    let base = args.config.output_name@;
    let name = config.output_name@;
    assert(!name_taken(entries, name));
    reveal_strlit("-");
    if name_taken(entries, base) {
        let i = choose|i: int|
            0 <= i < entries.len() && #[trigger] entries[i].1.output_name@ == base;
        assert(entries[i].1.output_name@ == base);
        assert(!args.explicit_output_name);
        if name == short_name(base, serial) {
            assert(name.take(base.len() as int) =~= base);
        } else {
            assert(name == long_name(base, serial));
            assert(name.take(base.len() as int) =~= base);
        }
    } else {
        assert forall|i: int| 0 <= i < entries.len() implies (#[trigger] entries[i]).1.output_name@
            != base by {
            assert(entries[i].1.output_name@ != base);
        }
    }
}

/// Whether a name is another with a dash and something more behind it.
pub open spec fn begins_with_dash(name: Seq<char>, base: Seq<char>) -> bool {
    &&& name.len() > base.len()
    &&& name.take(base.len() as int) == base
    &&& name[base.len() as int] == '-'
}

proof fn lemma_alphanumerics(s: Seq<char>)
    ensures
        alphanumerics(s) == s.filter(
            |c: char| ('0' <= c && c <= '9') || ('A' <= c && c <= 'Z') || ('a' <= c && c <= 'z'),
        ),
    decreases s.len(),
{
    reveal(Seq::filter);
    if s.len() > 0 {
        lemma_alphanumerics(s.drop_last());
    }
}

/// What sets a device apart in a name is the last four letters and digits of its
/// serial, in lower case, or all of them where there are fewer.
pub proof fn names_end_in_the_serial(base: Seq<char>, serial: Seq<char>)
    ensures
        ({
            let kept = serial.filter(
                |c: char|
                    ('0' <= c && c <= '9') || ('A' <= c && c <= 'Z') || ('a' <= c && c <= 'z'),
            );
            let n = if kept.len() < 4 {
                kept.len() as int
            } else {
                4
            };
            let name = short_name(base, serial);
            &&& name.len() == base.len() + 1 + n
            &&& name.take(base.len() as int) == base
            &&& name[base.len() as int] == '-'
            &&& forall|k: int|
                0 <= k < n ==> #[trigger] name[base.len() + 1 + k] == crate::text::lower(
                    kept[kept.len() - n + k],
                )
            &&& long_name(base, serial).skip((base.len() + 1) as int) == serial
        }),
{
    reveal_strlit("-");
    lemma_alphanumerics(serial);
    let kept = alphanumerics(serial);
    let tail = last_chars(kept, 4);
    let name = short_name(base, serial);
    assert(name.take(base.len() as int) =~= base);
    assert(long_name(base, serial).skip((base.len() + 1) as int) =~= serial);
}

/// While nothing runs it is said once, and again after each new list: that there is
/// no device, or which devices are not ready.
pub proof fn idleness_is_told_once(g: Registry, after: Registry, r: Idle, serial: Seq<char>)
    requires
        g.idled(after, r),
        g.sessions.wf(),
    ensures
        r is Silent <==> g.announced_idle || g.sessions.entries@.len() > 0,
        r is NoDevice ==> g.devices@.len() == 0,
        !(r is Silent) ==> after.announced_idle,
        r matches Idle::Waiting(list) ==> {
            &&& g.devices@.len() > 0
            &&& has_serial(list@, serial) ==> has_serial(g.devices@, serial)
        },
        after.sessions == g.sessions && after.cooldowns == g.cooldowns && after.devices
            == g.devices,
{
    let entries = g.sessions.entries@;
    if entries.len() > 0 {
        let key = entries[0].0@;
        crate::table::lemma_lookup(entries, key);
        assert(entries[0].0@ == key);
        assert(g.sessions@.contains_key(key));
    } else {
        assert(g.sessions@ =~= Map::<Seq<char>, Running>::empty());
    }
    match r {
        Idle::Waiting(list) => {
            let views = device_views(g.devices@);
            lemma_listed(list@, unready_devices(views), serial);
            if has_serial(list@, serial) {
                let d = choose|d: DeviceView| #[trigger]
                    unready_devices(views).contains(d) && d.serial == serial;
                lemma_unready(views, d);
                let i = views.index_of(d);
                assert(g.devices@[i].serial@ == serial);
            }
        },
        _ => {},
    }
}

proof fn lemma_unready(devices: Seq<DeviceView>, device: DeviceView)
    ensures
        unready_devices(devices).contains(device) <==> devices.contains(device) && !device.ready(),
    decreases devices.len(),
{
    if devices.len() > 0 {
        let head = devices.drop_last();
        lemma_unready(head, device);
        assert(devices =~= head.push(devices.last()));
        lemma_push_contains(head, devices.last(), device);
        lemma_push_contains(unready_devices(head), devices.last(), device);
    }
}

/// A session is refused for want of a port only where every port of the range is used,
/// and for want of a name only where every name that it could have is.
pub proof fn sessions_are_refused_for_want(g: Registry, serial: Seq<char>, args: Args, e: SpawnError)
    requires
        g.plans(serial, args, Err::<Config, SpawnError>(e)),
    ensures
        ({
            let entries = g.sessions.entries@;
            let base = args.config.output_name@;
            &&& e is Port ==> forall|p: int|
                #![trigger port_taken(entries, p)]
                args.config.port <= p < args.config.port + 100 && p < 65536 ==> port_taken(
                    entries,
                    p,
                )
            &&& e is Name ==> exists|i: int|
                0 <= i < entries.len() && #[trigger] entries[i].1.output_name@ == base
            &&& e matches SpawnError::Name(NameError::Held { name, holder, serial: newcomer }) ==> {
                &&& args.explicit_output_name && name@ == base && newcomer@ == serial
                &&& exists|i: int|
                    0 <= i < entries.len() && #[trigger] entries[i].0@ == holder@
                        && entries[i].1.output_name@ == base
            }
            &&& e matches SpawnError::Name(NameError::Ambiguous { name, serial: newcomer }) ==> {
                &&& !args.explicit_output_name && name@ == base && newcomer@ == serial
                &&& exists|i: int|
                    0 <= i < entries.len() && #[trigger] entries[i].1.output_name@ == base + "-"@
                        + serial
            }
        }),
{
    let entries = g.sessions.entries@;
    let base = args.config.output_name@;
    match e {
        SpawnError::Name(NameError::Held { holder, .. }) => {
            let i = choose|i: int|
                0 <= i < entries.len() && #[trigger] entries[i].0@ == holder@
                    && entries[i].1.output_name@ == base;
            assert(entries[i].1.output_name@ == base);
        },
        SpawnError::Name(NameError::Ambiguous { .. }) => {
            assert(name_taken(entries, base));
            assert(name_taken(entries, long_name(base, serial)));
        },
        SpawnError::Port(_) => {},
    }
}

/// A device that should get a session gets one planned for it, unless it has one; where
/// none can be planned it is put off.
pub proof fn attempts_are_planned(
    g: Registry,
    device: DeviceView,
    args: Args,
    now: u64,
    after: Registry,
    r: Attempt,
)
    requires
        g.attempted(device, args, now, after, r),
    ensures
        r is Skip <==> g.sessions@.contains_key(device.serial),
        r matches Attempt::Start(config) ==> g.plans(
            device.serial,
            args,
            Ok::<Config, SpawnError>(config),
        ) && after.cooldowns == g.cooldowns,
        r matches Attempt::Refused(e, _) ==> g.plans(
            device.serial,
            args,
            Err::<Config, SpawnError>(e),
        ) && after.cooldowns@.contains_key(device.serial),
        after.sessions == g.sessions && after.devices == g.devices,
{
}

/// A new list replaces the old one and lets idleness be told again; silence leaves the
/// old one standing, and so does a lost tracker, which has nothing compared.
pub proof fn news_replaces_the_list(g: Registry, event: TrackerEvent, after: Registry, r: bool)
    requires
        g.informed(event, after, r),
    ensures
        event matches TrackerEvent::Update(list) ==> r && after.devices == list
            && !after.announced_idle,
        event is Quiet ==> r && after == g,
        event is Lost ==> !r && after == g,
        after.sessions == g.sessions && after.cooldowns == g.cooldowns && after.seen_ready_at
            == g.seen_ready_at && after.once_armed == g.once_armed,
{
}

} // verus!
