//! Decisions of the HTTP API: the answers of the handlers and the course of
//! an upgrade requested from an ntfy action button.

use vstd::prelude::*;
use crate::models::{opt_str, Settings};
use crate::text::str_equals;

verus! {

/// The error text a handler answers with when `what` failed with `err`.
pub open spec fn failure_text(what: Seq<char>, err: Seq<char>) -> Seq<char> {
    "Failed to "@ + what + ": "@ + err
}

/// Builds the error text of a failed handler, such as
/// `Failed to get workloads: <error>`.
pub fn failure_message(what: &str, err: &str) -> (r: String)
    ensures
        r@ == failure_text(what@, err@),
{
    let mut r = String::from_str("Failed to ");
    r.append(what);
    r.append(": ");
    r.append(err);
    r
}

/// The query of an ntfy callback: `action` names the workload.
pub struct CallbackQuery {
    pub action: Option<String>,
    pub namespace: Option<String>,
    pub token: Option<String>,
}

/// A step of the callback, carried out by the caller.
pub enum CallbackStep {
    /// Load the settings (to learn the callback token).
    LoadSettings,
    /// Look the workload up in the database.
    LookupWorkload { name: String, namespace: String },
    /// Run the GitOps upgrade of the workload found.
    RunGitops,
    /// Send the commit notification for it.
    NotifyCommit,
    /// Load the settings again (to learn the rescan delay).
    LoadRescanSettings,
    /// Schedule a rescan of the workload after `delay`.
    ScheduleRescan { delay: String },
    /// Answer the request.
    Reply { status: u16, body: String },
}

/// Where a callback stands.
#[derive(Clone, Copy, Debug, PartialEq, Eq, Structural)]
pub enum CallbackPhase {
    AwaitSettings,
    AwaitLookup,
    AwaitGitops,
    AwaitNotify,
    AwaitRescanSettings,
    AwaitRescan,
    Answered,
}

/// An ntfy callback request being served.
pub struct NtfyCallback {
    query: CallbackQuery,
    phase: CallbackPhase,
}

/// The callback token of the settings, when they loaded and set one.
pub open spec fn expected_token(settings: Option<Settings>) -> Option<Seq<char>> {
    match settings {
        Some(s) => match s.notifications {
            Some(n) => match n.ntfy {
                Some(c) => opt_str(c.callback_token),
                None => None,
            },
            None => None,
        },
        None => None,
    }
}

/// The rescan delay of the settings, when they loaded and configure ntfy.
pub open spec fn rescan_delay(settings: Option<Settings>) -> Option<Seq<char>> {
    match settings {
        Some(s) => match s.notifications {
            Some(n) => match n.ntfy {
                Some(c) => Some(c.auto_rescan_delay@),
                None => None,
            },
            None => None,
        },
        None => None,
    }
}

/// A request passes when no token is configured, or when it carries
/// exactly the configured one.
pub open spec fn authorized(expected: Option<Seq<char>>, provided: Option<Seq<char>>) -> bool {
    match expected {
        Some(e) => provided == Some(e),
        None => true,
    }
}

/// The namespace of the request, `default` when it names none.
pub open spec fn request_namespace(q: Option<Seq<char>>) -> Seq<char> {
    match q {
        Some(n) => n,
        None => "default"@,
    }
}

/// The answer when the workload is not in the database.
pub open spec fn not_found_text(name: Seq<char>) -> Seq<char> {
    "Workload "@ + name + " not found"@
}

/// The answer when the upgrade failed.
pub open spec fn failed_text(name: Seq<char>, err: Seq<char>) -> Seq<char> {
    "Upgrade failed for "@ + name + ": "@ + err
}

/// The answer when the upgrade was done.
pub open spec fn initiated_text(name: Seq<char>) -> Seq<char> {
    "Upgrade initiated for "@ + name
}

/// The step that follows the token check, and where the request then
/// stands: 401 `Unauthorized` for a token other than the configured one,
/// `No action parameter provided` without a workload, else the lookup of
/// the workload in the request's namespace.
pub open spec fn settings_step(
    expected: Option<Seq<char>>,
    action: Option<Seq<char>>,
    namespace: Option<Seq<char>>,
    token: Option<Seq<char>>,
) -> (CallbackStepView, CallbackPhase) {
    if !authorized(expected, token) {
        (CallbackStepView::Reply { status: 401, body: "Unauthorized"@ }, CallbackPhase::Answered)
    } else if action is None {
        (CallbackStepView::Reply { status: 200, body: "No action parameter provided"@ }, CallbackPhase::Answered)
    } else {
        (
            CallbackStepView::LookupWorkload { name: action->0, namespace: request_namespace(namespace) },
            CallbackPhase::AwaitLookup,
        )
    }
}

/// Without a configured callback token there is no authentication: the
/// token check answers requests that differ only in their token (present,
/// absent or any value) alike, and never with 401. It is the only step that
/// reads the token; the later steps depend on the workload alone.
pub proof fn lemma_no_token_no_check(
    action: Option<Seq<char>>,
    namespace: Option<Seq<char>>,
    token1: Option<Seq<char>>,
    token2: Option<Seq<char>>,
)
    ensures
        settings_step(None, action, namespace, token1) == settings_step(None, action, namespace, token2),
        !(settings_step(None, action, namespace, token1).0 matches CallbackStepView::Reply { status, .. }
            && status == 401),
{
}

/// A request that passes the token check and names a workload looks that
/// workload up in the request's own namespace (`default` only when it names
/// none), whether or not a callback token is configured; a request whose
/// token differs from a configured one is answered 401 `Unauthorized`.
pub proof fn lemma_token_check_then_lookup(
    expected: Option<Seq<char>>,
    action: Option<Seq<char>>,
    namespace: Option<Seq<char>>,
    token: Option<Seq<char>>,
)
    ensures
        action matches Some(a) ==> ((expected is None || token == expected) ==> settings_step(
            expected,
            action,
            namespace,
            token,
        ) == (CallbackStepView::LookupWorkload {
            name: a,
            namespace: match namespace {
                Some(n) => n,
                None => "default"@,
            },
        }, CallbackPhase::AwaitLookup)),
        expected is Some && token != expected ==> settings_step(expected, action, namespace, token) == (
        CallbackStepView::Reply { status: 401, body: "Unauthorized"@ }, CallbackPhase::Answered),
{
}

/// Mathematical view of a [`CallbackStep`].
pub enum CallbackStepView {
    LoadSettings,
    LookupWorkload { name: Seq<char>, namespace: Seq<char> },
    RunGitops,
    NotifyCommit,
    LoadRescanSettings,
    ScheduleRescan { delay: Seq<char> },
    Reply { status: u16, body: Seq<char> },
}

impl View for CallbackStep {
    type V = CallbackStepView;

    open spec fn view(&self) -> CallbackStepView {
        match self {
            CallbackStep::LoadSettings => CallbackStepView::LoadSettings,
            CallbackStep::LookupWorkload { name, namespace } => CallbackStepView::LookupWorkload {
                name: name@,
                namespace: namespace@,
            },
            CallbackStep::RunGitops => CallbackStepView::RunGitops,
            CallbackStep::NotifyCommit => CallbackStepView::NotifyCommit,
            CallbackStep::LoadRescanSettings => CallbackStepView::LoadRescanSettings,
            CallbackStep::ScheduleRescan { delay } => CallbackStepView::ScheduleRescan { delay: delay@ },
            CallbackStep::Reply { status, body } => CallbackStepView::Reply { status: *status, body: body@ },
        }
    }
}

fn copy_str(s: &String) -> (r: String)
    ensures
        r@ == s@,
{
    String::from_str(s.as_str())
}

impl NtfyCallback {
    /// Where the request stands.
    pub closed spec fn phase(&self) -> CallbackPhase {
        self.phase
    }

    /// The workload named by the request.
    pub closed spec fn action(&self) -> Option<Seq<char>> {
        opt_str(self.query.action)
    }

    /// The namespace named by the request.
    pub closed spec fn namespace(&self) -> Option<Seq<char>> {
        opt_str(self.query.namespace)
    }

    /// The token the request carries.
    pub closed spec fn token(&self) -> Option<Seq<char>> {
        opt_str(self.query.token)
    }

    /// Past the token check the request names a workload.
    pub closed spec fn wf(&self) -> bool {
        self.phase != CallbackPhase::AwaitSettings && self.phase != CallbackPhase::Answered
            ==> self.query.action is Some
    }

    /// Starts serving a request: the settings are loaded first.
    pub fn start(query: CallbackQuery) -> (r: (NtfyCallback, CallbackStep))
        ensures
            r.0.wf(),
            r.0.phase() == CallbackPhase::AwaitSettings,
            r.0.action() == opt_str(query.action),
            r.0.namespace() == opt_str(query.namespace),
            r.0.token() == opt_str(query.token),
            r.1@ == CallbackStepView::LoadSettings,
    {
        (NtfyCallback { query, phase: CallbackPhase::AwaitSettings }, CallbackStep::LoadSettings)
    }

    fn name_copy(&self) -> (r: String)
        requires
            self.wf(),
            self.phase != CallbackPhase::AwaitSettings,
            self.phase != CallbackPhase::Answered,
        ensures
            Some(r@) == self.action(),
    {
        match &self.query.action {
            Some(a) => copy_str(a),
            None => String::new(),
        }
    }

    /// Takes the settings loaded for the token check (`None` when they did
    /// not load). A request whose token differs from the configured one is
    /// answered 401 `Unauthorized` and nothing else is done; a request
    /// without a workload is answered `No action parameter provided`;
    /// otherwise the workload is looked up in the request's namespace.
    pub fn on_settings(&mut self, settings: Option<Settings>) -> (step: CallbackStep)
        requires
            old(self).wf(),
            old(self).phase() == CallbackPhase::AwaitSettings,
        ensures
            final(self).wf(),
            final(self).action() == old(self).action(),
            (step@, final(self).phase()) == settings_step(
                expected_token(settings),
                old(self).action(),
                old(self).namespace(),
                old(self).token(),
            ),
    {
        let mut expected: Option<String> = None;
        match settings {
            Some(s) => match s.notifications {
                Some(n) => match n.ntfy {
                    Some(c) => {
                        expected = c.callback_token;
                    },
                    None => {},
                },
                None => {},
            },
            None => {},
        }
        assert(opt_str(expected) == expected_token(settings));
        let ok = match &expected {
            Some(e) => match &self.query.token {
                Some(t) => str_equals(t.as_str(), e.as_str()),
                None => false,
            },
            None => true,
        };
        if !ok {
            self.phase = CallbackPhase::Answered;
            return CallbackStep::Reply { status: 401, body: String::from_str("Unauthorized") };
        }
        match &self.query.action {
            Some(a) => {
                let name = copy_str(a);
                let namespace = match &self.query.namespace {
                    Some(n) => copy_str(n),
                    None => String::from_str("default"),
                };
                self.phase = CallbackPhase::AwaitLookup;
                CallbackStep::LookupWorkload { name, namespace }
            },
            None => {
                self.phase = CallbackPhase::Answered;
                CallbackStep::Reply { status: 200, body: String::from_str("No action parameter provided") }
            },
        }
    }

    /// Takes the result of the lookup: a workload that is not found is
    /// answered `Workload <name> not found`; a found one is upgraded.
    pub fn on_lookup(&mut self, found: bool) -> (step: CallbackStep)
        requires
            old(self).wf(),
            old(self).phase() == CallbackPhase::AwaitLookup,
        ensures
            final(self).wf(),
            final(self).action() == old(self).action(),
            if found {
                &&& step@ == CallbackStepView::RunGitops
                &&& final(self).phase() == CallbackPhase::AwaitGitops
            } else {
                &&& step@ == (CallbackStepView::Reply { status: 200, body: not_found_text(old(self).action()->0) })
                &&& final(self).phase() == CallbackPhase::Answered
            },
    {
        if found {
            self.phase = CallbackPhase::AwaitGitops;
            CallbackStep::RunGitops
        } else {
            let mut body = String::from_str("Workload ");
            body.append(self.name_copy().as_str());
            body.append(" not found");
            self.phase = CallbackPhase::Answered;
            CallbackStep::Reply { status: 200, body }
        }
    }

    /// Takes the result of the upgrade: a failure is answered
    /// `Upgrade failed for <name>: <error>`; a success is notified.
    pub fn on_gitops(&mut self, result: Result<(), String>) -> (step: CallbackStep)
        requires
            old(self).wf(),
            old(self).phase() == CallbackPhase::AwaitGitops,
        ensures
            final(self).wf(),
            final(self).action() == old(self).action(),
            match result {
                Ok(()) => {
                    &&& step@ == CallbackStepView::NotifyCommit
                    &&& final(self).phase() == CallbackPhase::AwaitNotify
                },
                Err(e) => {
                    &&& step@ == (CallbackStepView::Reply { status: 200, body: failed_text(old(self).action()->0, e@) })
                    &&& final(self).phase() == CallbackPhase::Answered
                },
            },
    {
        match result {
            Ok(()) => {
                self.phase = CallbackPhase::AwaitNotify;
                CallbackStep::NotifyCommit
            },
            Err(e) => {
                let mut body = String::from_str("Upgrade failed for ");
                body.append(self.name_copy().as_str());
                body.append(": ");
                body.append(e.as_str());
                self.phase = CallbackPhase::Answered;
                CallbackStep::Reply { status: 200, body }
            },
        }
    }

    /// After the notification (whose result does not matter) the settings
    /// are loaded again.
    pub fn on_notified(&mut self) -> (step: CallbackStep)
        requires
            old(self).wf(),
            old(self).phase() == CallbackPhase::AwaitNotify,
        ensures
            final(self).wf(),
            final(self).action() == old(self).action(),
            step@ == CallbackStepView::LoadRescanSettings,
            final(self).phase() == CallbackPhase::AwaitRescanSettings,
    {
        self.phase = CallbackPhase::AwaitRescanSettings;
        CallbackStep::LoadRescanSettings
    }

    fn initiated(&mut self) -> (step: CallbackStep)
        requires
            old(self).wf(),
            old(self).phase() != CallbackPhase::AwaitSettings,
            old(self).phase() != CallbackPhase::Answered,
        ensures
            final(self).wf(),
            final(self).action() == old(self).action(),
            step@ == (CallbackStepView::Reply { status: 200, body: initiated_text(old(self).action()->0) }),
            final(self).phase() == CallbackPhase::Answered,
    {
        let mut body = String::from_str("Upgrade initiated for ");
        body.append(self.name_copy().as_str());
        self.phase = CallbackPhase::Answered;
        CallbackStep::Reply { status: 200, body }
    }

    /// Takes the settings loaded again: with ntfy configured a rescan is
    /// scheduled after its delay; the answer is
    /// `Upgrade initiated for <name>`.
    pub fn on_rescan_settings(&mut self, settings: Option<Settings>) -> (step: CallbackStep)
        requires
            old(self).wf(),
            old(self).phase() == CallbackPhase::AwaitRescanSettings,
        ensures
            final(self).wf(),
            final(self).action() == old(self).action(),
            match rescan_delay(settings) {
                Some(d) => {
                    &&& step@ == (CallbackStepView::ScheduleRescan { delay: d })
                    &&& final(self).phase() == CallbackPhase::AwaitRescan
                },
                None => {
                    &&& step@ == (CallbackStepView::Reply { status: 200, body: initiated_text(old(self).action()->0) })
                    &&& final(self).phase() == CallbackPhase::Answered
                },
            },
    {
        let mut delay: Option<String> = None;
        match settings {
            Some(s) => match s.notifications {
                Some(n) => match n.ntfy {
                    Some(c) => {
                        delay = Some(c.auto_rescan_delay);
                    },
                    None => {},
                },
                None => {},
            },
            None => {},
        }
        assert(opt_str(delay) == rescan_delay(settings));
        match delay {
            Some(d) => {
                self.phase = CallbackPhase::AwaitRescan;
                CallbackStep::ScheduleRescan { delay: d }
            },
            None => self.initiated(),
        }
    }

    /// After the rescan is scheduled the request is answered
    /// `Upgrade initiated for <name>`.
    pub fn on_rescan_scheduled(&mut self) -> (step: CallbackStep)
        requires
            old(self).wf(),
            old(self).phase() == CallbackPhase::AwaitRescan,
        ensures
            final(self).wf(),
            final(self).action() == old(self).action(),
            step@ == (CallbackStepView::Reply { status: 200, body: initiated_text(old(self).action()->0) }),
            final(self).phase() == CallbackPhase::Answered,
    {
        self.initiated()
    }
}

} // verus!
