//! The rounds of the outer loop.
//!
//! A round waits for news from the tracker, tells the sessions whose device is
//! gone to end, starts sessions for the devices that should have one, and says
//! so when nothing runs. Sessions that have ended are taken in between rounds.

use vstd::prelude::*;

use crate::daemon::args::Args;
use crate::daemon::registry::{
    can_bump, has_entry, has_ready, has_serial, name_taken, port_taken,
    sessions_start_for_steady_devices, sessions_stop_with_their_devices, Attempt, Cooldown, Idle,
    Reconciliation, Registry, Running, SessionEnd, SpawnError, TrackerEvent, SECOND_NS,
};
use crate::daemon::session::Config;
use crate::daemon::tracker::{device_views, Device, DeviceView};
use crate::table::lemma_lookup;
use crate::text::strings;

verus! {

/// Where a round stands.
#[derive(Debug, Clone, Copy, PartialEq, Eq, Structural)]
pub enum Phase {
    /// Between rounds.
    Top,
    Polling,
    Reconnecting,
    Stopping,
    /// A session is being started.
    Starting,
    /// A device has been put off.
    Refusing,
    Announcing,
    Over,
}

/// What came of the last action.
#[derive(Debug)]
pub enum RoundEvent {
    /// It is done.
    Done,
    Tracker(TrackerEvent),
    /// The session runs.
    Started,
    /// The session's thread could not be had.
    StartFailed,
}

/// What to do next.
#[derive(Debug)]
pub enum RoundAction {
    /// Wait for news from the tracker.
    Poll,
    /// Wait a little and connect to the tracker again.
    Reconnect,
    /// Tell these sessions to end.
    Stop(Vec<String>),
    /// Start a session for this serial.
    Start(String, Config),
    /// Say why there is no session for this serial, and how long it is put off
    /// where that is worth mentioning.
    Refuse(String, Option<SpawnError>, Option<u64>),
    /// Say that nothing runs.
    Announce(Idle),
    /// Take in the sessions that have ended, then begin another round.
    Again,
    Exit,
}

/// The outer loop.
#[derive(Debug)]
pub struct Rounds {
    pub args: Args,
    pub registry: Registry,
    pub phase: Phase,
    /// The devices of this round that have not been looked at.
    pub waiting: Vec<Device>,
    /// The device that a session is being started for, and its settings.
    pub starting: Option<(Device, Config)>,
}

/// The first device without a session, or the number of devices.
pub open spec fn first_unserved(
    sessions: Map<Seq<char>, Running>,
    waiting: Seq<DeviceView>,
) -> int
    decreases waiting.len(),
{
    if waiting.len() == 0 {
        0
    } else if !sessions.contains_key(waiting[0].serial) {
        0
    } else {
        1 + first_unserved(sessions, waiting.skip(1))
    }
}

/// Whether one more failure of any device can be counted.
pub open spec fn can_count(cooldowns: Map<Seq<char>, Cooldown>, now: u64) -> bool {
    forall|serial: Seq<char>| #[trigger] can_bump(cooldowns, serial, now)
}

impl Rounds {
    pub open spec fn wf(self) -> bool {
        &&& self.registry.wf()
        &&& self.args.wf()
        &&& self.phase == Phase::Starting ==> (self.starting matches Some((device, config)) && {
            &&& !self.registry.sessions@.contains_key(device.serial@)
            &&& !port_taken(self.registry.sessions.entries@, config.port as int)
            &&& !name_taken(self.registry.sessions.entries@, config.output_name@)
        })
    }

    /// The device that a session is being started for, and its settings.
    pub open spec fn chosen(self) -> (Device, Config) {
        self.starting->0
    }

    /// Whether an event is what the round waits for.
    pub open spec fn expects(self, event: RoundEvent) -> bool {
        match self.phase {
            Phase::Polling => event is Tracker,
            Phase::Starting => event is Started || event is StartFailed,
            Phase::Over => false,
            _ => event is Done,
        }
    }

    /// Going on with the devices that have not been looked at: those that have
    /// a session are passed over, and the first that has none is attempted.
    /// After the last there is something to say where nothing runs.
    pub open spec fn goes_on(
        self,
        registry: Registry,
        now: u64,
        after: Rounds,
        action: RoundAction,
    ) -> bool {
        let waiting = device_views(self.waiting@);
        let at = first_unserved(registry.sessions@, waiting);
        &&& after.args == self.args
        &&& if at >= waiting.len() {
            &&& after.phase == Phase::Announcing
            &&& after.waiting@.len() == 0
            &&& action matches RoundAction::Announce(idle) && registry.idled(after.registry, idle)
        } else {
            let device = waiting[at];
            &&& device_views(after.waiting@) == waiting.skip(at + 1)
            &&& match action {
                RoundAction::Start(serial, config) => {
                    &&& after.phase == Phase::Starting
                    &&& after.registry == registry
                    &&& serial@ == device.serial
                    &&& registry.plans(device.serial, self.args, Ok::<Config, SpawnError>(config))
                    &&& after.starting matches Some((d, c)) && d@ == device && c@ == config@
                },
                RoundAction::Refuse(serial, Some(e), wait) => {
                    &&& after.phase == Phase::Refusing
                    &&& serial@ == device.serial
                    &&& registry.attempted(
                        device,
                        self.args,
                        now,
                        after.registry,
                        Attempt::Refused(e, wait),
                    )
                },
                _ => false,
            }
        }
    }

    /// What one step changes, and asks for.
    pub open spec fn steps_to(
        self,
        event: RoundEvent,
        now: u64,
        after: Rounds,
        action: RoundAction,
    ) -> bool {
        match (self.phase, event) {
            (Phase::Top, _) => {
                let over = self.args.once && self.registry.once_armed && self.registry.sessions@
                    == Map::<Seq<char>, Running>::empty();
                &&& after.args == self.args && after.registry == self.registry
                &&& if over {
                    after.phase == Phase::Over && action is Exit
                } else {
                    after.phase == Phase::Polling && action is Poll
                }
            },
            (Phase::Polling, RoundEvent::Tracker(TrackerEvent::Lost)) => {
                &&& after.args == self.args && after.registry == self.registry
                &&& after.phase == Phase::Reconnecting && action is Reconnect
            },
            (Phase::Polling, RoundEvent::Tracker(news)) => {
                &&& after.args == self.args
                &&& after.phase == Phase::Stopping
                &&& action matches RoundAction::Stop(stop) && exists|told: Registry| #[trigger]
                    self.registry.informed(news, told, true) && told.reconciled(
                        self.args.once,
                        now,
                        after.registry,
                        Reconciliation { stop, start: after.waiting },
                    )
            },
            (Phase::Starting, RoundEvent::Started) => exists|running: Registry| #[trigger]
                self.registry.started(
                    self.chosen().0.serial@,
                    self.chosen().1,
                    running,
                ) && self.goes_on(running, now, after, action),
            (Phase::Starting, _) => {
                &&& after.args == self.args && after.waiting == self.waiting
                &&& after.phase == Phase::Refusing
                &&& action matches RoundAction::Refuse(serial, None, wait) && serial@
                    == self.chosen().0.serial@ && self.registry.put_off(
                    serial@,
                    now,
                    after.registry,
                    wait,
                )
            },
            (Phase::Stopping, _) | (Phase::Refusing, _) => self.goes_on(
                self.registry,
                now,
                after,
                action,
            ),
            _ => {
                &&& after.args == self.args && after.registry == self.registry
                &&& after.phase == Phase::Top && action is Again
            },
        }
    }

    pub fn new(args: Args) -> (r: Self)
        requires
            args.wf(),
        ensures
            r.wf(),
            r.args == args,
            r.phase == Phase::Top,
            r.registry.devices@.len() == 0,
            r.registry.sessions@ == Map::<Seq<char>, Running>::empty(),
            r.registry.cooldowns@ == Map::<Seq<char>, Cooldown>::empty(),
            r.registry.seen_ready_at@ == Map::<Seq<char>, u64>::empty(),
            !r.registry.announced_idle,
            !r.registry.once_armed,
            r.waiting@.len() == 0,
            r.starting is None,
    {
        Rounds {
            args,
            registry: Registry::new(),
            phase: Phase::Top,
            waiting: Vec::new(),
            starting: None,
        }
    }

    /// Whether one more failure of any device can be counted.
    pub fn can_count(&self, now: u64) -> (r: bool)
        requires
            self.wf(),
        ensures
            r ==> can_count(self.registry.cooldowns@, now),
            !r ==> now + 16 * SECOND_NS > u64::MAX || exists|serial: Seq<char>| #[trigger]
                self.registry.cooldowns@.contains_key(serial)
                    && self.registry.cooldowns@[serial].failures == u32::MAX,
    {
        let entries = &self.registry.cooldowns.entries;
        if now > u64::MAX - 16 * SECOND_NS {
            return false;
        }
        let mut i: usize = 0;
        while i < entries.len()
            invariant
                i <= entries@.len(),
                self.wf(),
                *entries == self.registry.cooldowns.entries,
                forall|j: int| 0 <= j < i ==> (#[trigger] entries@[j]).1.failures < u32::MAX,
            decreases entries@.len() - i,
        {
            if entries[i].1.failures == u32::MAX {
                proof {
                    lemma_lookup(entries@, entries@[i as int].0@);
                    assert(self.registry.cooldowns@.contains_key(entries@[i as int].0@));
                }
                return false;
            }
            i += 1;
        }
        proof {
            let cooldowns = self.registry.cooldowns@;
            assert forall|serial: Seq<char>| #[trigger] can_bump(cooldowns, serial, now) by {
                lemma_lookup(entries@, serial);
                if cooldowns.contains_key(serial) {
                    let j = choose|j: int|
                        0 <= j < entries@.len() && #[trigger] entries@[j].0@ == serial;
                    assert(entries@[j].1.failures < u32::MAX);
                    assert(cooldowns[serial] == entries@[j].1);
                }
            }
        }
        true
    }

    /// Take in a session that has ended.
    pub fn session_ended(&mut self, serial: &str, end: SessionEnd, now: u64) -> (r: Option<u64>)
        requires
            old(self).wf(),
            old(self).phase == Phase::Top,
            can_count(old(self).registry.cooldowns@, now),
        ensures
            final(self).wf(),
            final(self).args == old(self).args,
            final(self).phase == old(self).phase,
            final(self).waiting == old(self).waiting,
            final(self).starting == old(self).starting,
            old(self).registry.reaped(serial@, end, now, final(self).registry, r),
    {
        proof {
            assert(can_bump(self.registry.cooldowns@, serial@, now));
        }
        self.registry.reap_finished(serial, end, now)
    }

    /// The next step, after what came of the last.
    pub fn step(&mut self, event: RoundEvent, now: u64) -> (r: RoundAction)
        requires
            old(self).wf(),
            old(self).expects(event),
            can_count(old(self).registry.cooldowns@, now),
        ensures
            final(self).wf(),
            old(self).steps_to(event, now, *final(self), r),
    {
        match self.phase {
            Phase::Top => {
                if self.registry.finished(self.args.once) {
                    self.phase = Phase::Over;
                    RoundAction::Exit
                } else {
                    self.phase = Phase::Polling;
                    RoundAction::Poll
                }
            },
            Phase::Polling => match event {
                RoundEvent::Tracker(news) => self.informed(news, now),
                _ => vstd::pervasive::unreached(),
            },
            Phase::Starting => match event {
                RoundEvent::Started => {
                    let (device, config) = match self.starting.take() {
                        Some(pair) => pair,
                        None => vstd::pervasive::unreached(),
                    };
                    self.registry.session_started(device.serial.as_str(), &config);
                    let ghost running = self.registry;
                    let action = self.go_on(now);
                    proof {
                        let chosen = old(self).chosen();
                        assert(old(self).registry.started(chosen.0.serial@, chosen.1, running));
                        assert(old(self).goes_on(running, now, *self, action));
                    }
                    action
                },
                _ => {
                    let (device, _) = match self.starting.take() {
                        Some(pair) => pair,
                        None => vstd::pervasive::unreached(),
                    };
                    proof {
                        assert(can_bump(self.registry.cooldowns@, device.serial@, now));
                    }
                    let wait = self.registry.spawn_failed(device.serial.as_str(), now);
                    self.phase = Phase::Refusing;
                    RoundAction::Refuse(device.serial, None, wait)
                },
            },
            Phase::Stopping => self.go_on(now),
            Phase::Refusing => self.go_on(now),
            Phase::Over => vstd::pervasive::unreached(),
            _ => {
                self.phase = Phase::Top;
                RoundAction::Again
            },
        }
    }

    fn informed(&mut self, news: TrackerEvent, now: u64) -> (r: RoundAction)
        requires
            old(self).wf(),
            old(self).phase == Phase::Polling,
        ensures
            final(self).wf(),
            old(self).steps_to(RoundEvent::Tracker(news), now, *final(self), r),
    {
        let listed = self.registry.on_tracker(news);
        if !listed {
            self.phase = Phase::Reconnecting;
            return RoundAction::Reconnect;
        }
        assert(self.registry.wf());
        let ghost told = self.registry;
        let plan = self.registry.reconcile(self.args.once, now);
        self.waiting = plan.start;
        self.phase = Phase::Stopping;
        proof {
            assert(old(self).registry.informed(news, told, true));
            assert(told.reconciled(self.args.once, now, self.registry, plan));
        }
        RoundAction::Stop(plan.stop)
    }

    fn go_on(&mut self, now: u64) -> (r: RoundAction)
        requires
            old(self).registry.wf(),
            old(self).args.wf(),
            can_count(old(self).registry.cooldowns@, now),
        ensures
            final(self).wf(),
            old(self).goes_on(old(self).registry, now, *final(self), r),
    {
        let ghost sessions = self.registry.sessions@;
        let ghost whole = device_views(self.waiting@);
        let ghost mut passed: int = 0;
        assert(whole.skip(0) =~= whole);
        while self.waiting.len() > 0
            invariant
                self.registry == old(self).registry,
                self.args == old(self).args,
                self.registry.wf(),
                self.args.wf(),
                can_count(self.registry.cooldowns@, now),
                sessions == self.registry.sessions@,
                whole == device_views(old(self).waiting@),
                0 <= passed <= whole.len(),
                device_views(self.waiting@) == whole.skip(passed),
                first_unserved(sessions, whole) == passed + first_unserved(
                    sessions,
                    whole.skip(passed),
                ),
            decreases self.waiting@.len(),
        {
            let ghost rest = device_views(self.waiting@);
            let device = self.waiting.remove(0);
            proof {
                assert(rest[0] == device@);
                assert(device_views(self.waiting@) =~= rest.skip(1));
                assert(rest.skip(1) =~= whole.skip(passed + 1));
                assert(can_bump(self.registry.cooldowns@, device.serial@, now));
            }
            let ghost before = self.registry;
            match self.registry.attempt(&device, &self.args, now) {
                Attempt::Skip => {
                    proof {
                        passed = passed + 1;
                    }
                },
                Attempt::Start(config) => {
                    self.phase = Phase::Starting;
                    let serial = device.serial.clone();
                    let settings = config.copy();
                    self.starting = Some((device, settings));
                    assert(self.registry == before);
                    return RoundAction::Start(serial, config);
                },
                Attempt::Refused(e, wait) => {
                    self.phase = Phase::Refusing;
                    return RoundAction::Refuse(device.serial, Some(e), wait);
                },
            }
        }
        assert(whole.skip(passed).len() == 0);
        self.phase = Phase::Announcing;
        RoundAction::Announce(self.registry.announce_idle())
    }
}

// -------------------------------------------------------------------- laws ---

/// A lost tracker changes nothing of what is known, so that no session ends on
/// account of it.
pub proof fn lost_tracker_keeps_everything(v: Rounds, now: u64, after: Rounds, action: RoundAction)
    requires
        v.phase == Phase::Polling,
        v.steps_to(RoundEvent::Tracker(TrackerEvent::Lost), now, after, action),
    ensures
        after.registry == v.registry,
        action is Reconnect,
{
}

/// Within a round, no session is started for a device that has one.
pub proof fn served_devices_are_passed_over(
    v: Rounds,
    registry: Registry,
    now: u64,
    after: Rounds,
    action: RoundAction,
)
    requires
        v.goes_on(registry, now, after, action),
    ensures
        action matches RoundAction::Start(serial, _) ==> !registry.sessions@.contains_key(serial@),
{
    lemma_first_unserved(registry.sessions@, device_views(v.waiting@));
}

proof fn lemma_first_unserved(sessions: Map<Seq<char>, Running>, waiting: Seq<DeviceView>)
    ensures
        0 <= first_unserved(sessions, waiting) <= waiting.len(),
        first_unserved(sessions, waiting) < waiting.len() ==> !sessions.contains_key(
            waiting[first_unserved(sessions, waiting)].serial,
        ),
    decreases waiting.len(),
{
    if waiting.len() > 0 && sessions.contains_key(waiting[0].serial) {
        lemma_first_unserved(sessions, waiting.skip(1));
    }
}

/// Every round ends: with each step there are fewer devices to look at, or the
/// round is closer to its end.
pub proof fn rounds_end(v: Rounds, now: u64, after: Rounds, action: RoundAction)
    requires
        v.phase == Phase::Stopping || v.phase == Phase::Refusing,
        v.steps_to(RoundEvent::Done, now, after, action),
    ensures
        after.phase == Phase::Announcing || after.waiting@.len() < v.waiting@.len(),
{
    lemma_first_unserved(v.registry.sessions@, device_views(v.waiting@));
    assert(device_views(v.waiting@).len() == v.waiting@.len());
    assert(device_views(after.waiting@).len() == after.waiting@.len());
}

/// A round that was not the last waits for news. With `--once` the loop ends once
/// its devices have been chosen and none of their sessions runs any more, and not
/// before; without it never.
pub proof fn the_loop_ends_after_once(v: Rounds, now: u64, after: Rounds, action: RoundAction)
    requires
        v.wf(),
        v.phase == Phase::Top,
        v.steps_to(RoundEvent::Done, now, after, action),
    ensures
        action is Exit <==> v.args.once && v.registry.once_armed
            && v.registry.sessions.entries@.len() == 0,
        !(action is Exit) ==> action is Poll && after.phase == Phase::Polling,
{
    let entries = v.registry.sessions.entries@;
    if entries.len() > 0 {
        let key = entries[0].0@;
        lemma_lookup(entries, key);
        assert(entries[0].0@ == key);
        assert(v.registry.sessions@.contains_key(key));
    } else {
        assert(v.registry.sessions@ =~= Map::<Seq<char>, Running>::empty());
    }
}

/// News of devices is acted on at once: the sessions whose device is gone are told
/// to end, and nothing else is done before that.
pub proof fn gone_devices_end_their_sessions(
    v: Rounds,
    list: Vec<Device>,
    now: u64,
    after: Rounds,
    action: RoundAction,
    serial: Seq<char>,
)
    requires
        v.phase == Phase::Polling,
        v.steps_to(RoundEvent::Tracker(TrackerEvent::Update(list)), now, after, action),
    ensures
        action matches RoundAction::Stop(stop) && (strings(stop@).contains(serial)
            <==> has_entry(v.registry.sessions.entries@, serial)
            && !has_ready(list@, serial)),
        after.registry.devices == list,
        after.phase == Phase::Stopping,
{
    let stop = action->Stop_0;
    let r = Reconciliation { stop, start: after.waiting };
    let told = choose|told: Registry| #[trigger]
        v.registry.informed(TrackerEvent::Update(list), told, true) && told.reconciled(
            v.args.once,
            now,
            after.registry,
            r,
        );
    sessions_stop_with_their_devices(
        told,
        v.args.once,
        now,
        after.registry,
        r,
        serial,
    );
}

/// A device that is ready and steady, with no session and not put off, is looked at
/// in this round, whether the list is new or still stands.
pub proof fn steady_devices_are_looked_at(
    v: Rounds,
    news: TrackerEvent,
    now: u64,
    after: Rounds,
    action: RoundAction,
    serial: Seq<char>,
)
    requires
        v.phase == Phase::Polling,
        !v.args.once,
        !(news is Lost),
        v.steps_to(RoundEvent::Tracker(news), now, after, action),
    ensures
        has_serial(after.waiting@, serial) <==> {
            let devices = match news {
                TrackerEvent::Update(list) => list@,
                _ => v.registry.devices@,
            };
            &&& has_ready(devices, serial)
            &&& !v.registry.sessions@.contains_key(serial)
            &&& v.registry.seen_ready_at@.contains_key(serial) && now
                >= v.registry.seen_ready_at@[serial] + 600_000_000
            &&& v.registry.cooldowns@.contains_key(serial) ==> now
                >= v.registry.cooldowns@[serial].next_attempt
        },
{
    let stop = action->Stop_0;
    let r = Reconciliation { stop, start: after.waiting };
    let told = choose|told: Registry| #[trigger]
        v.registry.informed(news, told, true) && told.reconciled(
            v.args.once,
            now,
            after.registry,
            r,
        );
    sessions_start_for_steady_devices(
        told,
        now,
        after.registry,
        r,
        serial,
    );
}

/// The next device of a round that has no session is attempted, those before it
/// having one; a session that is started for it has settings of its own.
pub proof fn unserved_devices_are_attempted_in_turn(
    v: Rounds,
    now: u64,
    after: Rounds,
    action: RoundAction,
    k: int,
)
    requires
        v.phase == Phase::Stopping || v.phase == Phase::Refusing,
        v.steps_to(RoundEvent::Done, now, after, action),
        0 <= k < v.waiting@.len(),
        !v.registry.sessions@.contains_key(v.waiting@[k].serial@),
        forall|j: int|
            0 <= j < k ==> v.registry.sessions@.contains_key((#[trigger] v.waiting@[j]).serial@),
    ensures
        action is Start || action is Refuse,
        action matches RoundAction::Start(serial, config) ==> serial@ == v.waiting@[k].serial@
            && v.registry.plans(serial@, v.args, Ok::<Config, SpawnError>(config)),
        action matches RoundAction::Refuse(serial, _, _) ==> serial@ == v.waiting@[k].serial@,
        after.waiting@.len() == v.waiting@.len() - k - 1,
{
    let views = device_views(v.waiting@);
    assert forall|j: int| 0 <= j < k implies v.registry.sessions@.contains_key(
        (#[trigger] views[j]).serial,
    ) by {
        assert(views[j] == v.waiting@[j]@);
    }
    assert(views[k] == v.waiting@[k]@);
    lemma_unserved_at(v.registry.sessions@, views, k);
    assert(device_views(after.waiting@).len() == after.waiting@.len());
}

proof fn lemma_unserved_at(sessions: Map<Seq<char>, Running>, waiting: Seq<DeviceView>, k: int)
    requires
        0 <= k < waiting.len(),
        !sessions.contains_key(waiting[k].serial),
        forall|j: int| 0 <= j < k ==> sessions.contains_key((#[trigger] waiting[j]).serial),
    ensures
        first_unserved(sessions, waiting) == k,
    decreases k,
{
    if k > 0 {
        let rest = waiting.skip(1);
        assert(rest[k - 1] == waiting[k]);
        assert forall|j: int| 0 <= j < k - 1 implies sessions.contains_key(
            (#[trigger] rest[j]).serial,
        ) by {
            assert(rest[j] == waiting[j + 1]);
        }
        assert(sessions.contains_key(waiting[0].serial));
        lemma_unserved_at(sessions, rest, k - 1);
    }
}

/// A session whose thread runs is on the list from then on; one whose thread could
/// not be had puts its device off.
pub proof fn starts_are_noted(
    v: Rounds,
    event: RoundEvent,
    now: u64,
    after: Rounds,
    action: RoundAction,
)
    requires
        v.wf(),
        v.phase == Phase::Starting,
        v.expects(event),
        v.steps_to(event, now, after, action),
    ensures
        event is StartFailed ==> action is Refuse && after.registry.sessions == v.registry.sessions
            && after.registry.cooldowns@.contains_key((v.starting->0).0.serial@),
        event is Started ==> after.registry.sessions@.contains_key((v.starting->0).0.serial@)
            && after.registry.sessions@[(v.starting->0).0.serial@].port == (v.starting->0).1.port,
{
    if event is Started {
        let serial = v.chosen().0.serial@;
        let running = choose|running: Registry| #[trigger]
            v.registry.started(serial, v.chosen().1, running) && v.goes_on(
                running,
                now,
                after,
                action,
            );
        assert(running.sessions@.contains_key(serial));
        assert(after.registry.sessions == running.sessions);
    }
}

} // verus!
