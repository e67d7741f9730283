//! Detecting what a coding agent in the foreground of a session is doing.
//!
//! Output is watched for structured reports. Which agent they come from is found out by looking at
//! the foreground process, which is not done more often than necessary.

pub mod osc;
pub mod process;
pub mod titles;

use crate::pty::activity::osc::{
    osc_models, BoundedOscParser, OscEvent, OscEventModel, OscModel, OscPayloadKind,
};
use crate::pty::activity::titles::{
    claude_meaning, claude_status_meaning, codex_meaning, codex_title_meaning, hints_differ,
    parse_iterm_progress_state, progress_state, some_hint_differs, StatusMeaning, TitleMeaning,
};
use vstd::prelude::*;

verus! {

/// The shortest time between two looks at the foreground process without a special reason.
pub const FOREGROUND_PROBE_MIN_INTERVAL_MS: u64 = 100;

/// The coding agents whose reports are understood.
///
/// Known gap: `ClaudeCode` is not yet recognised by its command lines and titles, as the others are.
#[derive(Clone, Copy, Debug, PartialEq, Eq, Structural)]
pub enum SessionActivityAgent {
    Codex,
    ClaudeCode,
    OpenCode,
    ZCode,
}

/// What an agent is doing.
#[derive(Clone, Copy, Debug, PartialEq, Eq, Structural)]
pub enum SessionActivityState {
    Idle,
    Running,
    Attention,
    Completed,
}

/// The kind of an activity report.
#[derive(Clone, Copy, Debug, PartialEq, Eq, Structural)]
pub enum SessionActivityKind {
    Ai,
}

/// A moment in milliseconds since the Unix epoch.
#[derive(Clone, Copy, Debug, PartialEq, Eq, Structural)]
pub struct UnixTimestampMillis(pub u64);

/// An activity report.
#[derive(Clone, Copy, Debug, PartialEq, Eq, Structural)]
pub struct SessionAiActivityPayload {
    pub kind: SessionActivityKind,
    pub agent: SessionActivityAgent,
    pub state: SessionActivityState,
    pub changed_at_ms: UnixTimestampMillis,
}

/// What the foreground process of a session is.
#[derive(Clone, Copy, Debug, PartialEq, Eq, Structural)]
pub enum ForegroundProcess {
    Agent(SessionActivityAgent),
    Other,
    Unknown,
}

/// Whether a structured report may cause a look at the foreground process at once.
#[derive(Clone, Copy, Debug, PartialEq, Eq, Structural)]
pub enum EventIdentityProbeState {
    /// A report that names another agent may cause one.
    Ready,
    /// The last look, at plain output, was inconclusive; the next report gets one.
    Pending,
    /// The last look, at a report, was inconclusive; wait for the interval.
    Consumed,
}

/// Watches the output of a session.
#[derive(Debug)]
pub struct SessionActivityDetector {
    parser: BoundedOscParser,
    activity: Option<SessionAiActivityPayload>,
    last_foreground: ForegroundProcess,
    last_foreground_probe_at_ms: Option<u64>,
    completed_identity_probe_pending: bool,
    event_identity_probe_state: EventIdentityProbeState,
}

/// The mathematical content of a [`SessionActivityDetector`].
#[verifier::ext_equal]
pub struct DetectorModel {
    pub parser: OscModel,
    pub activity: Option<SessionAiActivityPayload>,
    pub foreground: ForegroundProcess,
    pub probed_at_ms: Option<u64>,
    pub completed_probe_pending: bool,
    pub probe_state: EventIdentityProbeState,
}

impl View for SessionActivityDetector {
    type V = DetectorModel;

    closed spec fn view(&self) -> DetectorModel {
        DetectorModel {
            parser: self.parser@,
            activity: self.activity,
            foreground: self.last_foreground,
            probed_at_ms: self.last_foreground_probe_at_ms,
            completed_probe_pending: self.completed_identity_probe_pending,
            probe_state: self.event_identity_probe_state,
        }
    }
}

impl DetectorModel {
    /// An activity of the given agent and state is known.
    pub open spec fn shows(self, agent: SessionActivityAgent, state: SessionActivityState) -> bool {
        self.activity matches Some(a) && a.agent == agent && a.state == state
    }

    /// The activity changes to a new agent or state. Completion grants one look at the next output.
    pub open spec fn transition(
        self,
        agent: SessionActivityAgent,
        state: SessionActivityState,
        now_ms: u64,
    ) -> (DetectorModel, bool) {
        if self.shows(agent, state) {
            (self, false)
        } else {
            (
                DetectorModel {
                    activity: Some(
                        SessionAiActivityPayload {
                            kind: SessionActivityKind::Ai,
                            agent,
                            state,
                            changed_at_ms: UnixTimestampMillis(now_ms),
                        },
                    ),
                    completed_probe_pending: state == SessionActivityState::Completed,
                    ..self
                },
                true,
            )
        }
    }

    /// Work of an agent ends: what was going on is complete, anything else is idle.
    pub open spec fn finish_or_idle(self, agent: SessionActivityAgent, now_ms: u64) -> (
        DetectorModel,
        bool,
    ) {
        if self.shows(agent, SessionActivityState::Running) || self.shows(
            agent,
            SessionActivityState::Attention,
        ) {
            self.transition(agent, SessionActivityState::Completed, now_ms)
        } else if self.shows(agent, SessionActivityState::Completed) {
            (self, false)
        } else {
            self.transition(agent, SessionActivityState::Idle, now_ms)
        }
    }

    /// What the foreground process itself says.
    pub open spec fn see_foreground(self, now_ms: u64) -> (DetectorModel, bool) {
        match self.foreground {
            ForegroundProcess::Agent(agent) => match self.activity {
                Some(activity) => if activity.agent == agent {
                    (self, false)
                } else if agent == SessionActivityAgent::Codex {
                    (DetectorModel { activity: None, ..self }, true)
                } else {
                    self.transition(agent, SessionActivityState::Idle, now_ms)
                },
                None => if agent == SessionActivityAgent::Codex {
                    (self, false)
                } else {
                    self.transition(agent, SessionActivityState::Idle, now_ms)
                },
            },
            ForegroundProcess::Unknown => (self, false),
            ForegroundProcess::Other => match self.activity {
                None => (self, false),
                Some(activity) => match activity.state {
                    SessionActivityState::Running | SessionActivityState::Attention => {
                        self.transition(activity.agent, SessionActivityState::Completed, now_ms)
                    },
                    SessionActivityState::Idle => (DetectorModel { activity: None, ..self }, true),
                    SessionActivityState::Completed => (self, false),
                },
            },
        }
    }

    /// What a title of Codex says.
    pub open spec fn see_codex_title(self, title: Seq<u8>, now_ms: u64) -> (DetectorModel, bool) {
        let codex = SessionActivityAgent::Codex;
        match codex_meaning(title) {
            TitleMeaning::NotText => (self, false),
            TitleMeaning::Attention => self.transition(
                codex,
                SessionActivityState::Attention,
                now_ms,
            ),
            TitleMeaning::Running => self.transition(codex, SessionActivityState::Running, now_ms),
            TitleMeaning::Plain => match self.activity {
                None => self.transition(codex, SessionActivityState::Idle, now_ms),
                Some(activity) => match activity.state {
                    SessionActivityState::Running | SessionActivityState::Attention => {
                        self.transition(codex, SessionActivityState::Completed, now_ms)
                    },
                    SessionActivityState::Completed | SessionActivityState::Idle => (self, false),
                },
            },
        }
    }

    /// What a structured report of the foreground agent says.
    pub open spec fn see_event(
        self,
        agent: SessionActivityAgent,
        event: OscEventModel,
        now_ms: u64,
    ) -> (DetectorModel, bool) {
        match event.kind {
            OscPayloadKind::Title => if agent == SessionActivityAgent::Codex {
                self.see_codex_title(event.payload, now_ms)
            } else if self.activity matches Some(activity) && activity.agent == agent {
                (self, false)
            } else {
                self.transition(agent, SessionActivityState::Idle, now_ms)
            },
            OscPayloadKind::ClaudeStatus => if agent != SessionActivityAgent::ClaudeCode {
                (self, false)
            } else {
                match claude_meaning(event.payload) {
                    StatusMeaning::Running => self.transition(
                        agent,
                        SessionActivityState::Running,
                        now_ms,
                    ),
                    StatusMeaning::Attention => self.transition(
                        agent,
                        SessionActivityState::Attention,
                        now_ms,
                    ),
                    StatusMeaning::Idle => self.finish_or_idle(agent, now_ms),
                    StatusMeaning::Nothing => (self, false),
                }
            },
            OscPayloadKind::ItermProgress => if agent == SessionActivityAgent::Codex {
                (self, false)
            } else {
                match progress_state(event.payload) {
                    None => (self, false),
                    Some(state) => if state == 0 {
                        self.finish_or_idle(agent, now_ms)
                    } else if state == 1 || state == 3 {
                        self.transition(agent, SessionActivityState::Running, now_ms)
                    } else if state == 2 || state == 4 {
                        self.transition(agent, SessionActivityState::Attention, now_ms)
                    } else {
                        (self, false)
                    },
                }
            },
        }
    }

    /// What several structured reports of the foreground agent say.
    pub open spec fn see_events(
        self,
        agent: SessionActivityAgent,
        events: Seq<OscEventModel>,
        now_ms: u64,
    ) -> (DetectorModel, bool)
        decreases events.len(),
    {
        if events.len() == 0 {
            (self, false)
        } else {
            let (before, changed) = self.see_events(agent, events.drop_last(), now_ms);
            let (after, again) = before.see_event(agent, events.last(), now_ms);
            (after, changed || again)
        }
    }

    /// The interval since the last look at the foreground process has passed.
    pub open spec fn probe_due(self, now_ms: u64) -> bool {
        self.probed_at_ms matches Some(last) ==> now_ms - last >= FOREGROUND_PROBE_MIN_INTERVAL_MS
    }

    /// Output is looked at more closely at all.
    pub open spec fn engaged(self, events: Seq<OscEventModel>, empty: bool, now_ms: u64) -> bool {
        ||| events.len() > 0
        ||| match self.activity {
            None => !empty,
            Some(activity) => activity.state != SessionActivityState::Completed || (!empty && (
            self.completed_probe_pending || self.probe_due(now_ms))),
        }
    }

    /// The foreground process is looked at.
    pub open spec fn probes(self, events: Seq<OscEventModel>, empty: bool, now_ms: u64) -> bool {
        ||| self.completed_probe_pending && !empty
        ||| self.probe_due(now_ms)
        ||| events.len() > 0 && self.probe_state == EventIdentityProbeState::Pending
        ||| events.len() > 0 && self.probe_state == EventIdentityProbeState::Ready
            && self.activity is None && !(self.foreground is Agent)
        ||| self.probe_state == EventIdentityProbeState::Ready && match self.foreground {
            ForegroundProcess::Agent(cached) => some_hint_differs(events, cached),
            _ => false,
        }
    }

    /// The foreground process has been looked at.
    pub open spec fn probed(
        self,
        events: Seq<OscEventModel>,
        seen: ForegroundProcess,
        now_ms: u64,
    ) -> DetectorModel {
        let conclusive = seen matches ForegroundProcess::Agent(agent) && !some_hint_differs(
            events,
            agent,
        );
        DetectorModel {
            completed_probe_pending: false,
            probe_state: if conclusive {
                EventIdentityProbeState::Ready
            } else if events.len() == 0 {
                EventIdentityProbeState::Pending
            } else {
                EventIdentityProbeState::Consumed
            },
            foreground: seen,
            probed_at_ms: Some(now_ms),
            ..self
        }
    }

    /// A piece of output will cause a look at the foreground process.
    pub open spec fn will_probe(self, bytes: Seq<u8>, now_ms: u64) -> bool {
        let (parser, events) = self.parser.run(bytes);
        let read = DetectorModel { parser, ..self };
        read.engaged(events, bytes.len() == 0, now_ms) && read.probes(
            events,
            bytes.len() == 0,
            now_ms,
        )
    }

    /// What a piece of output changes, if a look at the foreground process shows `seen`.
    pub open spec fn observe(self, bytes: Seq<u8>, now_ms: u64, seen: ForegroundProcess) -> (
        DetectorModel,
        bool,
    ) {
        let (parser, events) = self.parser.run(bytes);
        let read = DetectorModel { parser, ..self };
        let empty = bytes.len() == 0;
        if !read.engaged(events, empty, now_ms) {
            (read, false)
        } else {
            let looked = if read.probes(events, empty, now_ms) {
                read.probed(events, seen, now_ms)
            } else {
                read
            };
            let (settled, changed) = looked.see_foreground(now_ms);
            match looked.foreground {
                ForegroundProcess::Agent(agent) => {
                    let (after, again) = settled.see_events(agent, events, now_ms);
                    (after, changed || again)
                },
                _ => (settled, changed),
            }
        }
    }
}

impl Default for SessionActivityDetector {
    fn default() -> (detector: Self)
        ensures
            detector.wf(),
            detector@ == (DetectorModel {
                parser: OscModel::Ground,
                activity: None,
                foreground: ForegroundProcess::Unknown,
                probed_at_ms: None,
                completed_probe_pending: false,
                probe_state: EventIdentityProbeState::Ready,
            }),
    {
        SessionActivityDetector {
            parser: BoundedOscParser::default(),
            activity: None,
            last_foreground: ForegroundProcess::Unknown,
            last_foreground_probe_at_ms: None,
            completed_identity_probe_pending: false,
            event_identity_probe_state: EventIdentityProbeState::Ready,
        }
    }
}

impl SessionActivityDetector {
    /// The parser is within its bounds.
    pub closed spec fn wf(&self) -> bool {
        self.parser.wf()
    }

    /// The current activity report.
    pub fn activity(&self) -> (activity: Option<SessionAiActivityPayload>)
        ensures
            activity == self@.activity,
    {
        self.activity
    }

    /// Watches a piece of output; tells whether the activity report has changed. The foreground
    /// process is looked at once at most.
    pub fn observe_output<F: FnOnce() -> ForegroundProcess>(
        &mut self,
        bytes: &[u8],
        now_ms: u64,
        foreground: F,
    ) -> (changed: bool)
        requires
            old(self).wf(),
            foreground.requires(()),
        ensures
            final(self).wf(),
            old(self)@.will_probe(bytes@, now_ms) ==> exists|seen: ForegroundProcess|
                foreground.ensures((), seen) && (final(self)@, changed) == #[trigger] old(
                    self,
                )@.observe(bytes@, now_ms, seen),
            !old(self)@.will_probe(bytes@, now_ms) ==> forall|seen: ForegroundProcess|
                (final(self)@, changed) == #[trigger] old(self)@.observe(bytes@, now_ms, seen),
    {
        let events = self.parser.push(bytes);
        let ghost models = osc_models(events@);
        let empty = bytes.len() == 0;
        if !self.is_engaged(&events, empty, now_ms) {
            return false;
        }
        let ghost read = self@;
        let ghost mut seen = self.last_foreground;
        if self.should_probe(&events, empty, now_ms) {
            let observed = foreground();
            proof {
                seen = observed;
            }
            self.record_probe(&events, observed, now_ms);
        }
        let changed = self.observe_foreground(now_ms);
        let result = match self.last_foreground {
            ForegroundProcess::Agent(agent) => {
                let again = self.observe_events(agent, &events, now_ms);
                changed || again
            },
            _ => changed,
        };
        assert((self@, result) == old(self)@.observe(bytes@, now_ms, seen));
        result
    }

    fn is_engaged(&self, events: &Vec<OscEvent>, empty: bool, now_ms: u64) -> (engaged: bool)
        ensures
            engaged == self@.engaged(osc_models(events@), empty, now_ms),
    {
        if events.len() > 0 {
            return true;
        }
        match self.activity {
            None => !empty,
            Some(activity) => {
                if activity.state != SessionActivityState::Completed {
                    return true;
                }
                !empty && (self.completed_identity_probe_pending || self.probe_due(now_ms))
            },
        }
    }

    fn probe_due(&self, now_ms: u64) -> (due: bool)
        ensures
            due == self@.probe_due(now_ms),
    {
        match self.last_foreground_probe_at_ms {
            None => true,
            Some(last) => now_ms.saturating_sub(last) >= FOREGROUND_PROBE_MIN_INTERVAL_MS,
        }
    }

    fn should_probe(&self, events: &Vec<OscEvent>, empty: bool, now_ms: u64) -> (probe: bool)
        ensures
            probe == self@.probes(osc_models(events@), empty, now_ms),
    {
        if self.completed_identity_probe_pending && !empty {
            return true;
        }
        if self.probe_due(now_ms) {
            return true;
        }
        match self.event_identity_probe_state {
            EventIdentityProbeState::Pending => events.len() > 0,
            EventIdentityProbeState::Ready => match self.last_foreground {
                ForegroundProcess::Agent(cached) => hints_differ(events, cached),
                _ => events.len() > 0 && self.activity.is_none(),
            },
            EventIdentityProbeState::Consumed => false,
        }
    }

    fn record_probe(&mut self, events: &Vec<OscEvent>, seen: ForegroundProcess, now_ms: u64)
        requires
            old(self).wf(),
        ensures
            final(self).wf(),
            final(self)@ == old(self)@.probed(osc_models(events@), seen, now_ms),
    {
        let conclusive = match seen {
            ForegroundProcess::Agent(agent) => !hints_differ(events, agent),
            _ => false,
        };
        self.completed_identity_probe_pending = false;
        self.event_identity_probe_state = if conclusive {
            EventIdentityProbeState::Ready
        } else if events.len() == 0 {
            EventIdentityProbeState::Pending
        } else {
            EventIdentityProbeState::Consumed
        };
        self.last_foreground = seen;
        self.last_foreground_probe_at_ms = Some(now_ms);
    }

    fn observe_foreground(&mut self, now_ms: u64) -> (changed: bool)
        requires
            old(self).wf(),
        ensures
            final(self).wf(),
            (final(self)@, changed) == old(self)@.see_foreground(now_ms),
    {
        match self.last_foreground {
            ForegroundProcess::Agent(agent) => {
                let known = match self.activity {
                    Some(activity) => activity.agent == agent,
                    None => agent == SessionActivityAgent::Codex,
                };
                if known {
                    false
                } else if agent == SessionActivityAgent::Codex {
                    self.activity = None;
                    true
                } else {
                    self.transition(agent, SessionActivityState::Idle, now_ms)
                }
            },
            ForegroundProcess::Unknown => false,
            ForegroundProcess::Other => match self.activity {
                None => false,
                Some(activity) => match activity.state {
                    SessionActivityState::Running | SessionActivityState::Attention => {
                        self.transition(activity.agent, SessionActivityState::Completed, now_ms)
                    },
                    SessionActivityState::Idle => {
                        self.activity = None;
                        true
                    },
                    SessionActivityState::Completed => false,
                },
            },
        }
    }

    fn observe_events(
        &mut self,
        agent: SessionActivityAgent,
        events: &Vec<OscEvent>,
        now_ms: u64,
    ) -> (changed: bool)
        requires
            old(self).wf(),
        ensures
            final(self).wf(),
            (final(self)@, changed) == old(self)@.see_events(agent, osc_models(events@), now_ms),
    {
        let ghost models = osc_models(events@);
        let mut changed: bool = false;
        let mut i: usize = 0;
        assert(models.take(0) =~= Seq::<OscEventModel>::empty());
        while i < events.len()
            invariant
                i <= events@.len(),
                models == osc_models(events@),
                self.wf(),
                (self@, changed) == old(self)@.see_events(agent, models.take(i as int), now_ms),
            decreases events@.len() - i,
        {
            assert(models.take(i + 1).drop_last() =~= models.take(i as int));
            assert(models.take(i + 1).last() == events@[i as int]@);
            let again = self.observe_event(agent, &events[i], now_ms);
            changed = changed || again;
            i = i + 1;
        }
        assert(models.take(i as int) =~= models);
        changed
    }

    fn observe_event(&mut self, agent: SessionActivityAgent, event: &OscEvent, now_ms: u64) -> (changed:
        bool)
        requires
            old(self).wf(),
        ensures
            final(self).wf(),
            (final(self)@, changed) == old(self)@.see_event(agent, event@, now_ms),
    {
        match event {
            OscEvent::Title(title) => self.observe_title(agent, title.as_slice(), now_ms),
            OscEvent::ClaudeStatus(payload) => {
                if agent != SessionActivityAgent::ClaudeCode {
                    return false;
                }
                self.observe_claude_status(payload.as_slice(), now_ms)
            },
            OscEvent::ItermProgress(payload) => {
                if agent == SessionActivityAgent::Codex {
                    return false;
                }
                self.observe_iterm_progress(agent, payload.as_slice(), now_ms)
            },
        }
    }

    fn observe_title(&mut self, agent: SessionActivityAgent, title: &[u8], now_ms: u64) -> (changed:
        bool)
        requires
            old(self).wf(),
        ensures
            final(self).wf(),
            (final(self)@, changed) == old(self)@.see_event(
                agent,
                OscEventModel { kind: OscPayloadKind::Title, payload: title@ },
                now_ms,
            ),
    {
        if agent == SessionActivityAgent::Codex {
            return self.observe_codex_title(title, now_ms);
        }
        let known = match self.activity {
            Some(activity) => activity.agent == agent,
            None => false,
        };
        if known {
            false
        } else {
            self.transition(agent, SessionActivityState::Idle, now_ms)
        }
    }

    fn observe_codex_title(&mut self, title: &[u8], now_ms: u64) -> (changed: bool)
        requires
            old(self).wf(),
        ensures
            final(self).wf(),
            (final(self)@, changed) == old(self)@.see_codex_title(title@, now_ms),
    {
        let codex = SessionActivityAgent::Codex;
        match codex_title_meaning(title) {
            TitleMeaning::NotText => false,
            TitleMeaning::Attention => self.transition(
                codex,
                SessionActivityState::Attention,
                now_ms,
            ),
            TitleMeaning::Running => self.transition(codex, SessionActivityState::Running, now_ms),
            TitleMeaning::Plain => match self.activity {
                None => self.transition(codex, SessionActivityState::Idle, now_ms),
                Some(activity) => match activity.state {
                    SessionActivityState::Running | SessionActivityState::Attention => {
                        self.transition(codex, SessionActivityState::Completed, now_ms)
                    },
                    SessionActivityState::Completed | SessionActivityState::Idle => false,
                },
            },
        }
    }

    fn observe_claude_status(&mut self, payload: &[u8], now_ms: u64) -> (changed: bool)
        requires
            old(self).wf(),
        ensures
            final(self).wf(),
            (final(self)@, changed) == old(self)@.see_event(
                SessionActivityAgent::ClaudeCode,
                OscEventModel { kind: OscPayloadKind::ClaudeStatus, payload: payload@ },
                now_ms,
            ),
    {
        let claude = SessionActivityAgent::ClaudeCode;
        match claude_status_meaning(payload) {
            StatusMeaning::Running => self.transition(claude, SessionActivityState::Running, now_ms),
            StatusMeaning::Attention => self.transition(
                claude,
                SessionActivityState::Attention,
                now_ms,
            ),
            StatusMeaning::Idle => self.finish_or_idle(claude, now_ms),
            StatusMeaning::Nothing => false,
        }
    }

    fn observe_iterm_progress(&mut self, agent: SessionActivityAgent, payload: &[u8], now_ms: u64) -> (changed:
        bool)
        requires
            old(self).wf(),
            agent != SessionActivityAgent::Codex,
        ensures
            final(self).wf(),
            (final(self)@, changed) == old(self)@.see_event(
                agent,
                OscEventModel { kind: OscPayloadKind::ItermProgress, payload: payload@ },
                now_ms,
            ),
    {
        match parse_iterm_progress_state(payload) {
            None => false,
            Some(state) => {
                if state == 0 {
                    self.finish_or_idle(agent, now_ms)
                } else if state == 1 || state == 3 {
                    self.transition(agent, SessionActivityState::Running, now_ms)
                } else if state == 2 || state == 4 {
                    self.transition(agent, SessionActivityState::Attention, now_ms)
                } else {
                    false
                }
            },
        }
    }

    fn shows(&self, agent: SessionActivityAgent, state: SessionActivityState) -> (shown: bool)
        ensures
            shown == self@.shows(agent, state),
    {
        match self.activity {
            Some(activity) => activity.agent == agent && activity.state == state,
            None => false,
        }
    }

    fn finish_or_idle(&mut self, agent: SessionActivityAgent, now_ms: u64) -> (changed: bool)
        requires
            old(self).wf(),
        ensures
            final(self).wf(),
            (final(self)@, changed) == old(self)@.finish_or_idle(agent, now_ms),
    {
        if self.shows(agent, SessionActivityState::Running) || self.shows(
            agent,
            SessionActivityState::Attention,
        ) {
            self.transition(agent, SessionActivityState::Completed, now_ms)
        } else if self.shows(agent, SessionActivityState::Completed) {
            false
        } else {
            self.transition(agent, SessionActivityState::Idle, now_ms)
        }
    }

    fn transition(&mut self, agent: SessionActivityAgent, state: SessionActivityState, now_ms: u64) -> (changed:
        bool)
        requires
            old(self).wf(),
        ensures
            final(self).wf(),
            (final(self)@, changed) == old(self)@.transition(agent, state, now_ms),
    {
        if self.shows(agent, state) {
            return false;
        }
        self.activity = Some(
            SessionAiActivityPayload {
                kind: SessionActivityKind::Ai,
                agent,
                state,
                changed_at_ms: UnixTimestampMillis(now_ms),
            },
        );
        self.completed_identity_probe_pending = state == SessionActivityState::Completed;
        true
    }
}

// ---------------------------------------------------------------------------
// Laws

/// Where no change is reported, the activity report is the same as before.
pub proof fn law_no_report_without_a_change(
    detector: DetectorModel,
    bytes: Seq<u8>,
    now_ms: u64,
    seen: ForegroundProcess,
)
    ensures
        !detector.observe(bytes, now_ms, seen).1 ==> detector.observe(bytes, now_ms, seen).0.activity
            == detector.activity,
{
    let (parser, events) = detector.parser.run(bytes);
    let read = DetectorModel { parser, ..detector };
    let empty = bytes.len() == 0;
    if read.engaged(events, empty, now_ms) {
        let looked = if read.probes(events, empty, now_ms) {
            read.probed(events, seen, now_ms)
        } else {
            read
        };
        let (settled, changed) = looked.see_foreground(now_ms);
        if let ForegroundProcess::Agent(agent) = looked.foreground {
            lemma_unchanged_events(settled, agent, events, now_ms);
        }
    }
}

proof fn lemma_unchanged_events(
    detector: DetectorModel,
    agent: SessionActivityAgent,
    events: Seq<OscEventModel>,
    now_ms: u64,
)
    ensures
        !detector.see_events(agent, events, now_ms).1 ==> detector.see_events(
            agent,
            events,
            now_ms,
        ).0.activity == detector.activity,
    decreases events.len(),
{
    if events.len() > 0 {
        lemma_unchanged_events(detector, agent, events.drop_last(), now_ms);
    }
}

/// Plain output shortly after a look at the foreground process causes no other look, unless work has
/// just been completed.
pub proof fn law_plain_output_is_throttled(detector: DetectorModel, bytes: Seq<u8>, now_ms: u64)
    requires
        detector.probed_at_ms is Some,
        now_ms - detector.probed_at_ms->0 < FOREGROUND_PROBE_MIN_INTERVAL_MS,
        !detector.completed_probe_pending,
        detector.parser.run(bytes).1.len() == 0,
    ensures
        !detector.will_probe(bytes, now_ms),
{
}

/// Completed work stays completed, whatever plain output follows, while the foreground shows the same
/// agent or no agent at all.
pub proof fn law_completed_is_latched(
    detector: DetectorModel,
    bytes: Seq<u8>,
    now_ms: u64,
    seen: ForegroundProcess,
    agent: SessionActivityAgent,
)
    requires
        detector.shows(agent, SessionActivityState::Completed),
        detector.parser.run(bytes).1.len() == 0,
        detector.foreground == ForegroundProcess::Agent(agent) || !(detector.foreground is Agent),
        seen == ForegroundProcess::Agent(agent) || !(seen is Agent),
    ensures
        detector.observe(bytes, now_ms, seen).0.activity == detector.activity,
        !detector.observe(bytes, now_ms, seen).1,
{
}

} // verus!
