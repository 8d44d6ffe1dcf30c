//! Deciding which channel adapters to start, and the auto-start routine itself:
//! bring the bridge to readiness within a bounded number of attempts, then launch
//! each configured adapter that is not already running.
//!
//! The routine is a state machine. Its caller performs each action it asks for
//! (read the process table, probe the socket, spawn, sleep) and hands back what
//! came of it as the next event.
use vstd::prelude::*;

use crate::registry::{
    channel_adapter_specs, is_adapter_configured, is_configured, key_views, registry, spec_views,
    AdapterView, ChannelAdapterSpec,
};
use crate::snapshot::{list_has_flag, process_list_has_acomm_flag};

verus! {

/// The adapters of `specs` that are configured, in order.
pub open spec fn configured_only(specs: Seq<AdapterView>, present: Seq<Seq<char>>) -> Seq<
    AdapterView,
>
    decreases specs.len(),
{
    if specs.len() == 0 {
        seq![]
    } else {
        let r = configured_only(specs.drop_last(), present);
        if is_configured(specs.last(), present) {
            r.push(specs.last())
        } else {
            r
        }
    }
}

/// The adapters of `specs` whose process the listing does not hold, in order.
pub open spec fn not_running(specs: Seq<AdapterView>, list: Seq<char>) -> Seq<AdapterView>
    decreases specs.len(),
{
    if specs.len() == 0 {
        seq![]
    } else {
        let r = not_running(specs.drop_last(), list);
        if !list_has_flag(list, specs.last().flag) {
            r.push(specs.last())
        } else {
            r
        }
    }
}

/// The adapters to auto-start: configured, and not running in the listing.
pub open spec fn pending_adapters(present: Seq<Seq<char>>, list: Seq<char>) -> Seq<AdapterView> {
    not_running(configured_only(registry(), present), list)
}

proof fn lemma_configured_only_contains(
    specs: Seq<AdapterView>,
    present: Seq<Seq<char>>,
    a: AdapterView,
)
    ensures
        configured_only(specs, present).contains(a) <==> specs.contains(a) && is_configured(
            a,
            present,
        ),
    decreases specs.len(),
{
    if specs.len() > 0 {
        let pre = specs.drop_last();
        lemma_configured_only_contains(pre, present, a);
        lemma_seq_push_contains(pre, specs.last(), a);
        assert(specs == pre.push(specs.last()));
        lemma_seq_push_contains(configured_only(pre, present), specs.last(), a);
    }
}

proof fn lemma_not_running_contains(specs: Seq<AdapterView>, list: Seq<char>, a: AdapterView)
    ensures
        not_running(specs, list).contains(a) <==> specs.contains(a) && !list_has_flag(
            list,
            a.flag,
        ),
    decreases specs.len(),
{
    if specs.len() > 0 {
        let pre = specs.drop_last();
        lemma_not_running_contains(pre, list, a);
        lemma_seq_push_contains(pre, specs.last(), a);
        assert(specs == pre.push(specs.last()));
        lemma_seq_push_contains(not_running(pre, list), specs.last(), a);
    }
}

proof fn lemma_seq_push_contains(s: Seq<AdapterView>, x: AdapterView, a: AdapterView)
    ensures
        s.push(x).contains(a) <==> (a == x || s.contains(a)),
{
    if s.push(x).contains(a) {
        let i = choose|i: int| 0 <= i < s.push(x).len() && s.push(x)[i] == a;
        if i < s.len() {
            assert(s[i] == a);
        }
    }
    if s.contains(a) {
        let i = choose|i: int| 0 <= i < s.len() && s[i] == a;
        assert(s.push(x)[i] == a);
    }
    if a == x {
        assert(s.push(x)[s.len() as int] == a);
    }
}

/// Whether an adapter is to be auto-started, that is among `pending_adapters`.
pub proof fn lemma_pending_contains(present: Seq<Seq<char>>, list: Seq<char>, a: AdapterView)
    ensures
        pending_adapters(present, list).contains(a) <==> registry().contains(a) && is_configured(
            a,
            present,
        ) && !list_has_flag(list, a.flag),
{
    lemma_not_running_contains(configured_only(registry(), present), list, a);
    lemma_configured_only_contains(registry(), present, a);
}

/// The adapters of `specs` that are configured, in order.
fn configured_adapters(specs: &Vec<ChannelAdapterSpec>, present: &Vec<String>) -> (r: Vec<
    ChannelAdapterSpec,
>)
    ensures
        spec_views(r@) == configured_only(spec_views(specs@), key_views(present@)),
{
    let mut out: Vec<ChannelAdapterSpec> = Vec::new();
    let mut i: usize = 0;
    while i < specs.len()
        invariant
            i <= specs@.len(),
            spec_views(out@) == configured_only(
                spec_views(specs@).take(i as int),
                key_views(present@),
            ),
        decreases specs@.len() - i,
    {
        let ghost done = spec_views(out@);
        assert(spec_views(specs@).take(i + 1).drop_last() =~= spec_views(specs@).take(i as int));
        assert(spec_views(specs@).take(i + 1).last() == specs@[i as int]@);
        if is_adapter_configured(&specs[i], present) {
            out.push(specs[i]);
            assert(spec_views(out@) =~= done.push(specs@[i as int]@));
        }
        i = i + 1;
    }
    assert(spec_views(specs@).take(specs@.len() as int) =~= spec_views(specs@));
    out
}

/// The adapters of `specs` whose process the listing does not hold, in order.
pub fn adapters_not_running(specs: &Vec<ChannelAdapterSpec>, process_list: &str) -> (r: Vec<
    ChannelAdapterSpec,
>)
    ensures
        spec_views(r@) == not_running(spec_views(specs@), process_list@),
{
    let mut out: Vec<ChannelAdapterSpec> = Vec::new();
    let mut i: usize = 0;
    while i < specs.len()
        invariant
            i <= specs@.len(),
            spec_views(out@) == not_running(spec_views(specs@).take(i as int), process_list@),
        decreases specs@.len() - i,
    {
        let ghost done = spec_views(out@);
        assert(spec_views(specs@).take(i + 1).drop_last() =~= spec_views(specs@).take(i as int));
        assert(spec_views(specs@).take(i + 1).last() == specs@[i as int]@);
        if !process_list_has_acomm_flag(process_list, specs[i].adapter_flag) {
            out.push(specs[i]);
            assert(spec_views(out@) =~= done.push(specs@[i as int]@));
        }
        i = i + 1;
    }
    assert(spec_views(specs@).take(specs@.len() as int) =~= spec_views(specs@));
    out
}

/// The adapters to auto-start, in registry order: those whose variables are all
/// among `present_env_keys` and whose process the listing does not hold.
pub fn adapters_to_autostart_from_inputs(present_env_keys: &Vec<String>, process_list: &str) -> (r:
    Vec<ChannelAdapterSpec>)
    ensures
        spec_views(r@) == pending_adapters(key_views(present_env_keys@), process_list@),
{
    let specs = channel_adapter_specs();
    let configured = configured_adapters(&specs, present_env_keys);
    adapters_not_running(&configured, process_list)
}


/// How many times the routine looks for a ready bridge before its final probe.
pub const ATTEMPT_LIMIT: u32 = 20;

/// The pause between two attempts, in milliseconds.
pub const RETRY_DELAY_MS: u64 = 100;

/// Where the auto-start routine stands: the phases name what it waits for.
#[derive(Clone, Copy, Debug, PartialEq, Eq, Structural)]
pub enum Phase {
    /// Not begun: waits for the environment and a first listing.
    Idle,
    /// Waits for a fresh listing, to look for the bridge process.
    AwaitSnapshot,
    /// The bridge process runs: waits for the socket probe.
    AwaitProbe,
    /// No bridge process: waits to learn whether a socket file is left on disk.
    AwaitArtifact,
    /// Waits for a stale socket file to be removed.
    AwaitRemoval,
    /// Waits for the bridge to be spawned.
    AwaitSpawn,
    /// Waits out the pause between two attempts.
    AwaitPause,
    /// The attempts are spent: waits for one last socket probe.
    AwaitFinalProbe,
    /// The bridge is ready: waits for a fresh listing before launching.
    AwaitRecheck,
    /// Launching adapters: waits for the last spawn to be reported.
    Launching,
    /// Finished.
    Done,
}

/// The auto-start routine's state.
pub struct AutoStart {
    pub phase: Phase,
    /// Attempts begun so far.
    pub attempt: u32,
    /// The adapters the routine set out to start.
    pub candidates: Vec<ChannelAdapterSpec>,
    /// The candidates still absent from the listing read once the bridge was ready.
    pub launch: Vec<ChannelAdapterSpec>,
    /// How many of `launch` have been handed out for spawning.
    pub launched: usize,
}

/// What the caller reports back after carrying out an action.
pub enum AutoStartEvent {
    /// The names of the non-blank environment variables, and a first process
    /// listing (`None` when it could not be read).
    Begin { present_env_keys: Vec<String>, process_list: Option<String> },
    /// A process listing, `None` when it could not be read.
    ProcessList(Option<String>),
    /// Whether a connection to the bridge socket succeeded.
    SocketProbed(bool),
    /// Whether the bridge socket file exists.
    ArtifactChecked(bool),
    /// The socket file was removed (or its removal attempted).
    ArtifactRemoved,
    /// Whether spawning the bridge succeeded.
    BridgeSpawned(bool),
    /// The pause is over.
    Slept,
    /// Whether spawning the last adapter succeeded.
    AdapterSpawned(bool),
}

/// What the routine asks its caller to do next.
#[derive(Clone, Copy, Debug)]
pub enum AutoStartAction {
    /// Read the process table and report `ProcessList`.
    ReadProcessList,
    /// Try to connect to the bridge socket and report `SocketProbed`.
    ProbeSocket,
    /// Look whether the socket file exists and report `ArtifactChecked`.
    CheckSocketArtifact,
    /// Remove the stale socket file and report `ArtifactRemoved`.
    RemoveSocketArtifact,
    /// Spawn the bridge, detached, and report `BridgeSpawned`.
    SpawnBridge,
    /// Sleep this many milliseconds and report `Slept`.
    Sleep(u64),
    /// Spawn this adapter, detached, and report `AdapterSpawned`.
    SpawnAdapter(ChannelAdapterSpec),
    /// Warn that the bridge was not ready; the routine is over and launched nothing.
    WarnBridgeNotReady,
    /// The routine is over.
    Finish,
}

/// The routine's state in mathematical terms.
pub struct AutoStartView {
    pub phase: Phase,
    pub attempt: u32,
    pub candidates: Seq<AdapterView>,
    pub launch: Seq<AdapterView>,
    pub launched: usize,
}

/// An event in mathematical terms; a listing that could not be read is empty.
pub enum EventView {
    Begin(Seq<Seq<char>>, Seq<char>),
    ProcessList(Seq<char>),
    SocketProbed(bool),
    ArtifactChecked(bool),
    ArtifactRemoved,
    BridgeSpawned(bool),
    Slept,
    AdapterSpawned(bool),
}

/// An action in mathematical terms.
pub enum ActionView {
    ReadProcessList,
    ProbeSocket,
    CheckSocketArtifact,
    RemoveSocketArtifact,
    SpawnBridge,
    Sleep(u64),
    SpawnAdapter(AdapterView),
    WarnBridgeNotReady,
    Finish,
}

/// A listing as characters; one that could not be read counts as empty.
pub open spec fn listing_view(list: Option<String>) -> Seq<char> {
    match list {
        Some(s) => s@,
        None => Seq::empty(),
    }
}

impl View for AutoStart {
    type V = AutoStartView;

    open spec fn view(&self) -> AutoStartView {
        AutoStartView {
            phase: self.phase,
            attempt: self.attempt,
            candidates: spec_views(self.candidates@),
            launch: spec_views(self.launch@),
            launched: self.launched,
        }
    }
}

impl View for AutoStartEvent {
    type V = EventView;

    open spec fn view(&self) -> EventView {
        match self {
            AutoStartEvent::Begin { present_env_keys, process_list } => EventView::Begin(
                key_views(present_env_keys@),
                listing_view(*process_list),
            ),
            AutoStartEvent::ProcessList(l) => EventView::ProcessList(listing_view(*l)),
            AutoStartEvent::SocketProbed(b) => EventView::SocketProbed(*b),
            AutoStartEvent::ArtifactChecked(b) => EventView::ArtifactChecked(*b),
            AutoStartEvent::ArtifactRemoved => EventView::ArtifactRemoved,
            AutoStartEvent::BridgeSpawned(b) => EventView::BridgeSpawned(*b),
            AutoStartEvent::Slept => EventView::Slept,
            AutoStartEvent::AdapterSpawned(b) => EventView::AdapterSpawned(*b),
        }
    }
}

impl View for AutoStartAction {
    type V = ActionView;

    open spec fn view(&self) -> ActionView {
        match self {
            AutoStartAction::ReadProcessList => ActionView::ReadProcessList,
            AutoStartAction::ProbeSocket => ActionView::ProbeSocket,
            AutoStartAction::CheckSocketArtifact => ActionView::CheckSocketArtifact,
            AutoStartAction::RemoveSocketArtifact => ActionView::RemoveSocketArtifact,
            AutoStartAction::SpawnBridge => ActionView::SpawnBridge,
            AutoStartAction::Sleep(ms) => ActionView::Sleep(*ms),
            AutoStartAction::SpawnAdapter(a) => ActionView::SpawnAdapter(a@),
            AutoStartAction::WarnBridgeNotReady => ActionView::WarnBridgeNotReady,
            AutoStartAction::Finish => ActionView::Finish,
        }
    }
}

/// The routine before it has begun.
pub open spec fn initial() -> AutoStartView {
    AutoStartView {
        phase: Phase::Idle,
        attempt: 0,
        candidates: seq![],
        launch: seq![],
        launched: 0,
    }
}

/// The event that each phase waits for.
pub open spec fn accepts(s: AutoStartView, e: EventView) -> bool {
    match s.phase {
        Phase::Idle => e is Begin,
        Phase::AwaitSnapshot => e is ProcessList,
        Phase::AwaitProbe => e is SocketProbed,
        Phase::AwaitArtifact => e is ArtifactChecked,
        Phase::AwaitRemoval => e is ArtifactRemoved,
        Phase::AwaitSpawn => e is BridgeSpawned,
        Phase::AwaitPause => e is Slept,
        Phase::AwaitFinalProbe => e is SocketProbed,
        Phase::AwaitRecheck => e is ProcessList,
        Phase::Launching => e is AdapterSpawned,
        Phase::Done => false,
    }
}

/// Begin another attempt while the budget lasts, else make the final probe.
pub open spec fn next_attempt(s: AutoStartView) -> (AutoStartView, ActionView) {
    if s.attempt < ATTEMPT_LIMIT {
        (
            AutoStartView { phase: Phase::AwaitSnapshot, attempt: (s.attempt + 1) as u32, ..s },
            ActionView::ReadProcessList,
        )
    } else {
        (AutoStartView { phase: Phase::AwaitFinalProbe, ..s }, ActionView::ProbeSocket)
    }
}

/// Hand out the next adapter of `launch`, or finish when none is left.
pub open spec fn next_launch(s: AutoStartView) -> (AutoStartView, ActionView) {
    if s.launched < s.launch.len() {
        (
            AutoStartView { phase: Phase::Launching, launched: (s.launched + 1) as usize, ..s },
            ActionView::SpawnAdapter(s.launch[s.launched as int]),
        )
    } else {
        (AutoStartView { phase: Phase::Done, ..s }, ActionView::Finish)
    }
}

/// The routine's transition on an event that its phase accepts.
pub open spec fn next(s: AutoStartView, e: EventView) -> (AutoStartView, ActionView) {
    match e {
        EventView::Begin(present, list) => {
            let c = pending_adapters(present, list);
            if c.len() == 0 {
                (AutoStartView { phase: Phase::Done, candidates: c, ..s }, ActionView::Finish)
            } else {
                next_attempt(AutoStartView { candidates: c, attempt: 0, ..s })
            }
        },
        EventView::ProcessList(list) => {
            if s.phase == Phase::AwaitSnapshot {
                if list_has_flag(list, "--bridge"@) {
                    (AutoStartView { phase: Phase::AwaitProbe, ..s }, ActionView::ProbeSocket)
                } else {
                    (
                        AutoStartView { phase: Phase::AwaitArtifact, ..s },
                        ActionView::CheckSocketArtifact,
                    )
                }
            } else {
                next_launch(
                    AutoStartView { launch: not_running(s.candidates, list), launched: 0, ..s },
                )
            }
        },
        EventView::SocketProbed(ok) => {
            if ok {
                (AutoStartView { phase: Phase::AwaitRecheck, ..s }, ActionView::ReadProcessList)
            } else if s.phase == Phase::AwaitProbe {
                (
                    AutoStartView { phase: Phase::AwaitPause, ..s },
                    ActionView::Sleep(RETRY_DELAY_MS),
                )
            } else {
                (AutoStartView { phase: Phase::Done, ..s }, ActionView::WarnBridgeNotReady)
            }
        },
        EventView::ArtifactChecked(exists) => {
            if exists {
                (
                    AutoStartView { phase: Phase::AwaitRemoval, ..s },
                    ActionView::RemoveSocketArtifact,
                )
            } else {
                (AutoStartView { phase: Phase::AwaitSpawn, ..s }, ActionView::SpawnBridge)
            }
        },
        EventView::ArtifactRemoved => (
            AutoStartView { phase: Phase::AwaitSpawn, ..s },
            ActionView::SpawnBridge,
        ),
        EventView::BridgeSpawned(ok) => {
            if ok {
                (
                    AutoStartView { phase: Phase::AwaitPause, ..s },
                    ActionView::Sleep(RETRY_DELAY_MS),
                )
            } else {
                (AutoStartView { phase: Phase::Done, ..s }, ActionView::WarnBridgeNotReady)
            }
        },
        EventView::Slept => next_attempt(s),
        EventView::AdapterSpawned(_) => next_launch(s),
    }
}

/// Feeds `events` to the routine from `s`, skipping any its phase does not wait
/// for; gives the final state and the actions asked for, in order.
pub open spec fn run(s: AutoStartView, events: Seq<EventView>) -> (AutoStartView, Seq<ActionView>)
    decreases events.len(),
{
    if events.len() == 0 {
        (s, seq![])
    } else {
        let (t, acts) = run(s, events.drop_last());
        if accepts(t, events.last()) {
            let (u, a) = next(t, events.last());
            (u, acts.push(a))
        } else {
            (t, acts)
        }
    }
}

/// What holds along a run in which no socket probe has succeeded.
spec fn closed(s: AutoStartView, acts: Seq<ActionView>) -> bool {
    &&& forall|j: int| 0 <= j < acts.len() ==> !(#[trigger] acts[j] is SpawnAdapter)
    &&& s.phase != Phase::AwaitRecheck && s.phase != Phase::Launching
    &&& s.phase == Phase::Done && s.candidates.len() > 0 ==> acts.len() > 0 && acts.last()
        == ActionView::WarnBridgeNotReady
    &&& s.attempt <= ATTEMPT_LIMIT
}

/// If the bridge socket never accepts a connection, the routine never launches an
/// adapter, never begins more than `ATTEMPT_LIMIT` attempts, and a run that ends
/// after setting out to start adapters ends with the warning that the bridge was
/// not ready.
pub proof fn lemma_fail_closed(events: Seq<EventView>)
    requires
        forall|i: int| 0 <= i < events.len() ==> events[i] != EventView::SocketProbed(true),
    ensures
        forall|j: int|
            0 <= j < run(initial(), events).1.len() ==> !(#[trigger] run(
                initial(),
                events,
            ).1[j] is SpawnAdapter),
        run(initial(), events).0.attempt <= ATTEMPT_LIMIT,
        run(initial(), events).0.phase == Phase::Done && run(initial(), events).0.candidates.len()
            > 0 ==> run(initial(), events).1.last() == ActionView::WarnBridgeNotReady,
{
    lemma_closed_along_run(events);
}

proof fn lemma_closed_along_run(events: Seq<EventView>)
    requires
        forall|i: int| 0 <= i < events.len() ==> events[i] != EventView::SocketProbed(true),
    ensures
        closed(run(initial(), events).0, run(initial(), events).1),
    decreases events.len(),
{
    if events.len() > 0 {
        let pre = events.drop_last();
        assert(forall|i: int| 0 <= i < pre.len() ==> pre[i] == events[i]);
        lemma_closed_along_run(pre);
        let (t, acts) = run(initial(), pre);
        let e = events.last();
        assert(e == events[events.len() - 1]);
        if accepts(t, e) {
            let (u, a) = next(t, e);
            assert(!(a is SpawnAdapter));
            assert forall|j: int| 0 <= j < acts.push(a).len() implies !(#[trigger] acts.push(
                a,
            )[j] is SpawnAdapter) by {
                if j < acts.len() {
                    assert(acts.push(a)[j] == acts[j]);
                }
            }
        }
    }
}

/// A bridge is spawned only once the socket file is known to be gone: right
/// after a check that found none, or right after removing a stale one. A check
/// that finds the file always leads to its removal, and a listing without a
/// bridge process always leads to that check, never straight to a spawn.
pub proof fn lemma_stale_socket_removed_before_spawn(s: AutoStartView, e: EventView)
    requires
        accepts(s, e),
    ensures
        next(s, e).1 == ActionView::SpawnBridge ==> (s.phase == Phase::AwaitArtifact && e
            == EventView::ArtifactChecked(false)) || (s.phase == Phase::AwaitRemoval && e
            == EventView::ArtifactRemoved),
        s.phase == Phase::AwaitArtifact && e == EventView::ArtifactChecked(true) ==> next(s, e).1
            == ActionView::RemoveSocketArtifact && next(s, e).0.phase == Phase::AwaitRemoval,
        next(s, e).0.phase == Phase::AwaitRemoval ==> s.phase == Phase::AwaitArtifact && e
            == EventView::ArtifactChecked(true),
        s.phase == Phase::AwaitSnapshot && (e is ProcessList) && !list_has_flag(
            e->ProcessList_0,
            "--bridge"@,
        ) ==> next(s, e).1 == ActionView::CheckSocketArtifact,
{
}

/// Each of `events` is one that the routine waits for at that point of the run.
pub open spec fn all_accepted(s: AutoStartView, events: Seq<EventView>) -> bool
    decreases events.len(),
{
    events.len() == 0 || (all_accepted(s, events.drop_last()) && accepts(
        run(s, events.drop_last()).0,
        events.last(),
    ))
}

/// The phases that wait on the socket file were entered by asking about it.
spec fn phase_follows_last_action(s: AutoStartView, acts: Seq<ActionView>) -> bool {
    &&& s.phase == Phase::AwaitArtifact ==> acts.len() > 0 && acts.last()
        == ActionView::CheckSocketArtifact
    &&& s.phase == Phase::AwaitRemoval ==> acts.len() > 0 && acts.last()
        == ActionView::RemoveSocketArtifact
}

/// Along a whole run, each event answering the action before it: every spawn of
/// the bridge comes right after a check that found no socket file or right after
/// the removal of a stale one, and a check that finds the file is always
/// followed by its removal.
pub proof fn lemma_run_removes_stale_socket_before_spawn(events: Seq<EventView>)
    requires
        all_accepted(initial(), events),
    ensures
        run(initial(), events).1.len() == events.len(),
        forall|j: int|
            0 <= j < events.len() && #[trigger] run(initial(), events).1[j]
                == ActionView::SpawnBridge ==> j >= 1 && ((run(initial(), events).1[j - 1]
                == ActionView::CheckSocketArtifact && events[j] == EventView::ArtifactChecked(
                false,
            )) || (run(initial(), events).1[j - 1] == ActionView::RemoveSocketArtifact
                && events[j] == EventView::ArtifactRemoved)),
        forall|j: int|
            1 <= j < events.len() && run(initial(), events).1[j - 1]
                == ActionView::CheckSocketArtifact && #[trigger] events[j]
                == EventView::ArtifactChecked(true) ==> run(initial(), events).1[j]
                == ActionView::RemoveSocketArtifact,
{
    lemma_socket_order_along_run(events);
}

proof fn lemma_socket_order_along_run(events: Seq<EventView>)
    requires
        all_accepted(initial(), events),
    ensures
        run(initial(), events).1.len() == events.len(),
        forall|j: int|
            0 <= j < events.len() && #[trigger] run(initial(), events).1[j]
                == ActionView::SpawnBridge ==> j >= 1 && ((run(initial(), events).1[j - 1]
                == ActionView::CheckSocketArtifact && events[j] == EventView::ArtifactChecked(
                false,
            )) || (run(initial(), events).1[j - 1] == ActionView::RemoveSocketArtifact
                && events[j] == EventView::ArtifactRemoved)),
        forall|j: int|
            1 <= j < events.len() && run(initial(), events).1[j - 1]
                == ActionView::CheckSocketArtifact && #[trigger] events[j]
                == EventView::ArtifactChecked(true) ==> run(initial(), events).1[j]
                == ActionView::RemoveSocketArtifact,
        phase_follows_last_action(run(initial(), events).0, run(initial(), events).1),
    decreases events.len(),
{
    if events.len() > 0 {
        let pre = events.drop_last();
        lemma_socket_order_along_run(pre);
        let (t, acts) = run(initial(), pre);
        let e = events.last();
        let (u, a) = next(t, e);
        let all = acts.push(a);
        assert(run(initial(), events).1 == all);
        lemma_stale_socket_removed_before_spawn(t, e);
        assert forall|j: int|
            0 <= j < events.len() && #[trigger] all[j] == ActionView::SpawnBridge implies j >= 1
            && ((all[j - 1] == ActionView::CheckSocketArtifact && events[j]
            == EventView::ArtifactChecked(false)) || (all[j - 1]
            == ActionView::RemoveSocketArtifact && events[j] == EventView::ArtifactRemoved)) by {
            if j < acts.len() {
                assert(all[j] == acts[j]);
                assert(pre[j] == events[j]);
                assert(acts[j] == ActionView::SpawnBridge);
                assert(all[j - 1] == acts[j - 1]);
                assert(pre[j] == events[j]);
            } else {
                assert(all[j - 1] == acts.last());
            }
        }
        assert forall|j: int|
            1 <= j < events.len() && all[j - 1] == ActionView::CheckSocketArtifact
                && #[trigger] events[j] == EventView::ArtifactChecked(true) implies all[j]
            == ActionView::RemoveSocketArtifact by {
            if j < acts.len() {
                assert(all[j] == acts[j]);
                assert(all[j - 1] == acts[j - 1]);
                assert(pre[j] == events[j]);
            }
        }
    }
}

/// Every adapter handed out once the bridge is ready is configured and absent
/// from the listing read after the bridge became ready.
pub proof fn lemma_launch_skips_running(s: AutoStartView, list: Seq<char>)
    requires
        s.phase == Phase::AwaitRecheck,
    ensures
        forall|a: AdapterView| #[trigger]
            next(s, EventView::ProcessList(list)).0.launch.contains(a) ==> s.candidates.contains(
                a,
            ) && !list_has_flag(list, a.flag),
{
    assert forall|a: AdapterView| #[trigger]
        next(s, EventView::ProcessList(list)).0.launch.contains(a) implies s.candidates.contains(
        a,
    ) && !list_has_flag(list, a.flag) by {
        lemma_not_running_contains(s.candidates, list, a);
    }
}

/// Running the routine again, with the same environment and a process table that
/// still holds every adapter process it held, plus those the first run launched,
/// starts nothing: it finishes at once.
pub proof fn lemma_second_run_starts_nothing(
    present: Seq<Seq<char>>,
    first: Seq<char>,
    second: Seq<char>,
)
    requires
        forall|j: int|
            0 <= j < registry().len() && list_has_flag(first, registry()[j].flag) ==> list_has_flag(
                second,
                #[trigger] registry()[j].flag,
            ),
        forall|a: AdapterView|
            pending_adapters(present, first).contains(a) ==> list_has_flag(second, #[trigger] a.flag),
    ensures
        pending_adapters(present, second) == Seq::<AdapterView>::empty(),
        next(initial(), EventView::Begin(present, second)) == (
            AutoStartView { phase: Phase::Done, ..initial() },
            ActionView::Finish,
        ),
{
    let p = pending_adapters(present, second);
    if p.len() > 0 {
        let a = p[0];
        assert(p.contains(a));
        lemma_pending_contains(present, second, a);
        let j = choose|j: int| 0 <= j < registry().len() && registry()[j] == a;
        if list_has_flag(first, a.flag) {
            assert(list_has_flag(second, registry()[j].flag));
        } else {
            lemma_pending_contains(present, first, a);
        }
    }
    assert(p =~= Seq::<AdapterView>::empty());
}

impl AutoStart {
    /// The routine before it has begun.
    pub fn new() -> (r: AutoStart)
        ensures
            r@ == initial(),
    {
        let r = AutoStart {
            phase: Phase::Idle,
            attempt: 0,
            candidates: Vec::new(),
            launch: Vec::new(),
            launched: 0,
        };
        assert(r@.candidates =~= Seq::<AdapterView>::empty());
        assert(r@.launch =~= Seq::<AdapterView>::empty());
        r
    }

    /// Whether the current phase waits for `event`.
    pub fn accepts(&self, event: &AutoStartEvent) -> (r: bool)
        ensures
            r == accepts(self@, event@),
    {
        match self.phase {
            Phase::Idle => matches!(event, AutoStartEvent::Begin { .. }),
            Phase::AwaitSnapshot => matches!(event, AutoStartEvent::ProcessList(_)),
            Phase::AwaitProbe => matches!(event, AutoStartEvent::SocketProbed(_)),
            Phase::AwaitArtifact => matches!(event, AutoStartEvent::ArtifactChecked(_)),
            Phase::AwaitRemoval => matches!(event, AutoStartEvent::ArtifactRemoved),
            Phase::AwaitSpawn => matches!(event, AutoStartEvent::BridgeSpawned(_)),
            Phase::AwaitPause => matches!(event, AutoStartEvent::Slept),
            Phase::AwaitFinalProbe => matches!(event, AutoStartEvent::SocketProbed(_)),
            Phase::AwaitRecheck => matches!(event, AutoStartEvent::ProcessList(_)),
            Phase::Launching => matches!(event, AutoStartEvent::AdapterSpawned(_)),
            Phase::Done => false,
        }
    }

    fn begin_attempt(&mut self) -> (r: AutoStartAction)
        ensures
            (final(self)@, r@) == next_attempt(old(self)@),
    {
        if self.attempt < ATTEMPT_LIMIT {
            self.phase = Phase::AwaitSnapshot;
            self.attempt = self.attempt + 1;
            AutoStartAction::ReadProcessList
        } else {
            self.phase = Phase::AwaitFinalProbe;
            AutoStartAction::ProbeSocket
        }
    }

    fn launch_next(&mut self) -> (r: AutoStartAction)
        ensures
            (final(self)@, r@) == next_launch(old(self)@),
    {
        if self.launched < self.launch.len() {
            let a = self.launch[self.launched];
            self.phase = Phase::Launching;
            self.launched = self.launched + 1;
            AutoStartAction::SpawnAdapter(a)
        } else {
            self.phase = Phase::Done;
            AutoStartAction::Finish
        }
    }

    fn begin(&mut self, present_env_keys: &Vec<String>, list: &str) -> (r: AutoStartAction)
        requires
            old(self)@.phase == Phase::Idle,
        ensures
            (final(self)@, r@) == next(
                old(self)@,
                EventView::Begin(key_views(present_env_keys@), list@),
            ),
    {
        let c = adapters_to_autostart_from_inputs(present_env_keys, list);
        if c.len() == 0 {
            self.candidates = c;
            self.phase = Phase::Done;
            AutoStartAction::Finish
        } else {
            self.candidates = c;
            self.attempt = 0;
            self.begin_attempt()
        }
    }

    /// Takes the outcome of the last action and says what to do next.
    pub fn step(&mut self, event: AutoStartEvent) -> (r: AutoStartAction)
        requires
            accepts(old(self)@, event@),
        ensures
            (final(self)@, r@) == next(old(self)@, event@),
    {
        proof {
            reveal_strlit("");
        }
        let r = match &event {
            AutoStartEvent::Begin { present_env_keys, process_list } => {
                let list: &str = match process_list {
                    Some(l) => l.as_str(),
                    None => "",
                };
                assert(list@ == listing_view(*process_list));
                self.begin(present_env_keys, list)
            },
            AutoStartEvent::ProcessList(process_list) => {
                let list: &str = match process_list {
                    Some(l) => l.as_str(),
                    None => "",
                };
                if self.phase == Phase::AwaitSnapshot {
                    if process_list_has_acomm_flag(list, "--bridge") {
                        self.phase = Phase::AwaitProbe;
                        AutoStartAction::ProbeSocket
                    } else {
                        self.phase = Phase::AwaitArtifact;
                        AutoStartAction::CheckSocketArtifact
                    }
                } else {
                    assert(list@ == listing_view(*process_list));
                    self.launch = adapters_not_running(&self.candidates, list);
                    self.launched = 0;
                    self.launch_next()
                }
            },
            AutoStartEvent::SocketProbed(ok) => {
                if *ok {
                    self.phase = Phase::AwaitRecheck;
                    AutoStartAction::ReadProcessList
                } else if self.phase == Phase::AwaitProbe {
                    self.phase = Phase::AwaitPause;
                    AutoStartAction::Sleep(RETRY_DELAY_MS)
                } else {
                    self.phase = Phase::Done;
                    AutoStartAction::WarnBridgeNotReady
                }
            },
            AutoStartEvent::ArtifactChecked(exists) => {
                if *exists {
                    self.phase = Phase::AwaitRemoval;
                    AutoStartAction::RemoveSocketArtifact
                } else {
                    self.phase = Phase::AwaitSpawn;
                    AutoStartAction::SpawnBridge
                }
            },
            AutoStartEvent::ArtifactRemoved => {
                self.phase = Phase::AwaitSpawn;
                AutoStartAction::SpawnBridge
            },
            AutoStartEvent::BridgeSpawned(ok) => {
                if *ok {
                    self.phase = Phase::AwaitPause;
                    AutoStartAction::Sleep(RETRY_DELAY_MS)
                } else {
                    self.phase = Phase::Done;
                    AutoStartAction::WarnBridgeNotReady
                }
            },
            AutoStartEvent::Slept => self.begin_attempt(),
            AutoStartEvent::AdapterSpawned(_) => self.launch_next(),
        };
        r
    }
}

} // verus!
