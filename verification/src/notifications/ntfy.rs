//! Planning of ntfy notifications and parsing of the rescan delay.

use vstd::prelude::*;
use crate::models::{opt_str, Ntfy, Settings, Workload};
use crate::text::{
    all_digits, decimal, decimal_value, digit_char, digit_value, is_digit, is_whitespace, parse_u64,
    parse_u64_spec, push_decimal, str_equals, trim, trim_end, trim_start, trim_str,
    lemma_trim_idempotent, contains, lemma_contains_middle,
};

verus! {

/// Most action buttons the ntfy server accepts on one message; with more it
/// rejects the whole message.
pub const NTFY_MAX_ACTIONS: usize = 3;

/// Message priority of ntfy.
#[derive(Clone, Copy, Debug, PartialEq, Eq, Structural)]
pub enum Priority {
    Max,
    High,
    Default,
    Low,
    Min,
}

/// Kind of an ntfy action button.
#[derive(Clone, Copy, Debug, PartialEq, Eq, Structural)]
pub enum ActionType {
    View,
    Broadcast,
    Http,
}

/// An action button: its label and the URL it calls.
#[derive(Clone, Debug)]
pub struct Action {
    pub action: ActionType,
    pub label: String,
    pub url: String,
}

/// Mathematical view of an [`Action`].
pub struct ActionView {
    pub action: ActionType,
    pub label: Seq<char>,
    pub url: Seq<char>,
}

impl View for Action {
    type V = ActionView;

    open spec fn view(&self) -> ActionView {
        ActionView { action: self.action, label: self.label@, url: self.url@ }
    }
}

/// An ntfy message ready to publish.
#[derive(Clone, Debug)]
pub struct Payload {
    pub topic: String,
    pub message: String,
    pub title: Option<String>,
    pub tags: Vec<String>,
    pub priority: Priority,
    pub actions: Option<Vec<Action>>,
    pub markdown: bool,
}

/// Mathematical view of a [`Payload`].
pub struct PayloadView {
    pub topic: Seq<char>,
    pub message: Seq<char>,
    pub title: Option<Seq<char>>,
    pub tags: Seq<Seq<char>>,
    pub priority: Priority,
    pub actions: Option<Seq<ActionView>>,
    pub markdown: bool,
}

/// The views of a sequence of actions.
pub open spec fn actions_view(a: Seq<Action>) -> Seq<ActionView> {
    a.map_values(|x: Action| x@)
}

impl View for Payload {
    type V = PayloadView;

    open spec fn view(&self) -> PayloadView {
        PayloadView {
            topic: self.topic@,
            message: self.message@,
            title: opt_str(self.title),
            tags: self.tags@.map_values(|t: String| t@),
            priority: self.priority,
            actions: match self.actions {
                Some(a) => Some(actions_view(a@)),
                None => None,
            },
            markdown: self.markdown,
        }
    }
}

/// What `url::Url::parse` gives for `input`: the serialization of the parsed
/// URL, or `None` where the input is no absolute URL.
pub uninterp spec fn url_parse(input: Seq<char>) -> Option<Seq<char>>;

/// Calls `url::Url::parse` and hands back the serialization of the result.
/// The claim: the result is the named value `url_parse` of the input; what
/// that value is on a given input is left to the `url` crate.
#[verifier::external_body]
fn parse_url(input: &str) -> (r: Option<String>)
    ensures
        opt_str(r) == url_parse(input@),
{
    match url::Url::parse(input) {
        Ok(u) => Some(String::from(u)),
        Err(_) => None,
    }
}

/// Number of chunks of at most [`NTFY_MAX_ACTIONS`] workloads that `n`
/// workloads are split into.
pub open spec fn chunk_count(n: nat) -> nat {
    (n + 2) / 3
}

/// The `i`-th chunk (from 0) of `ws`.
pub open spec fn chunk_of(ws: Seq<Workload>, i: int) -> Seq<Workload> {
    let end = if 3 * i + 3 <= ws.len() { 3 * i + 3 } else { ws.len() as int };
    ws.subrange(3 * i, end)
}

/// The title of part `part` of `total` batch notifications.
pub open spec fn batch_title(part: nat, total: nat) -> Seq<char> {
    if total > 1 {
        "SlackWatch Updates ("@ + decimal(part) + "/"@ + decimal(total) + ")"@
    } else {
        "SlackWatch Updates"@
    }
}

/// The message line announcing the update of one workload.
pub open spec fn update_line(w: Workload) -> Seq<char> {
    "- **"@ + w.name@ + "**: "@ + w.current_version@ + " → "@ + w.latest_version@ + "\n"@
}

/// The update lines of `ws`, in order.
pub open spec fn update_lines(ws: Seq<Workload>) -> Seq<char>
    decreases ws.len(),
{
    if ws.len() == 0 {
        Seq::empty()
    } else {
        update_lines(ws.drop_last()) + update_line(ws.last())
    }
}

/// The message body of a batch notification for `ws`.
pub open spec fn batch_message(ws: Seq<Workload>) -> Seq<char> {
    "**Update Available**\n\n"@ + update_lines(ws)
}

/// The callback URL (before URL parsing) that upgrades `w`.
pub open spec fn action_url(base: Seq<char>, w: Workload, token: Option<Seq<char>>) -> Seq<char> {
    base + "/api/ntfy/callback?action="@ + w.name@ + "&namespace="@ + w.namespace@
        + "&latest_version="@ + w.latest_version@ + match token {
        Some(t) => "&token="@ + t,
        None => Seq::empty(),
    }
}

/// The "Upgrade" buttons of `ws`, one per workload whose callback URL parses.
pub open spec fn upgrade_actions(ws: Seq<Workload>, base: Seq<char>, token: Option<Seq<char>>) -> Seq<ActionView>
    decreases ws.len(),
{
    if ws.len() == 0 {
        Seq::empty()
    } else {
        let prev = upgrade_actions(ws.drop_last(), base, token);
        match url_parse(action_url(base, ws.last(), token)) {
            Some(u) => prev.push(ActionView { action: ActionType::Http, label: "Upgrade"@, url: u }),
            None => prev,
        }
    }
}

/// The buttons of a batch notification: none without a callback URL.
pub open spec fn chunk_actions(ws: Seq<Workload>, callback_url: Option<Seq<char>>, token: Option<Seq<char>>) -> Seq<ActionView> {
    match callback_url {
        Some(base) => upgrade_actions(ws, base, token),
        None => Seq::empty(),
    }
}

/// Part `part` of `total` batch notifications, for the workloads `ws`.
pub open spec fn batch_payload(
    ws: Seq<Workload>,
    part: nat,
    total: nat,
    topic: Seq<char>,
    callback_url: Option<Seq<char>>,
    token: Option<Seq<char>>,
) -> PayloadView {
    let actions = chunk_actions(ws, callback_url, token);
    PayloadView {
        topic: topic,
        message: batch_message(ws),
        title: Some(batch_title(part, total)),
        tags: seq!["Update"@],
        priority: Priority::High,
        actions: if actions.len() > 0 { Some(actions) } else { None },
        markdown: true,
    }
}

/// All batch notifications announcing the updates of `ws`.
pub open spec fn batch_payloads(
    ws: Seq<Workload>,
    topic: Seq<char>,
    callback_url: Option<Seq<char>>,
    token: Option<Seq<char>>,
) -> Seq<PayloadView> {
    let total = chunk_count(ws.len());
    Seq::new(total, |i: int| batch_payload(chunk_of(ws, i), (i + 1) as nat, total, topic, callback_url, token))
}

/// The number of action buttons of a message.
pub open spec fn action_count(p: PayloadView) -> nat {
    match p.actions {
        Some(a) => a.len(),
        None => 0,
    }
}

/// The number of action buttons over all of `ps`.
pub open spec fn total_action_count(ps: Seq<PayloadView>) -> nat
    decreases ps.len(),
{
    if ps.len() == 0 {
        0
    } else {
        total_action_count(ps.drop_last()) + action_count(ps.last())
    }
}

/// The first `k` chunks of `ws`, joined in order.
pub open spec fn chunks_joined(ws: Seq<Workload>, k: nat) -> Seq<Workload>
    decreases k,
{
    if k == 0 {
        Seq::empty()
    } else {
        chunks_joined(ws, (k - 1) as nat) + chunk_of(ws, k - 1)
    }
}

proof fn lemma_upgrade_actions_len(ws: Seq<Workload>, base: Seq<char>, token: Option<Seq<char>>)
    ensures
        upgrade_actions(ws, base, token).len() <= ws.len(),
        (forall|j: int| 0 <= j < ws.len() ==> (#[trigger] url_parse(action_url(base, ws[j], token))) is Some)
            ==> upgrade_actions(ws, base, token).len() == ws.len(),
    decreases ws.len(),
{
    if ws.len() > 0 {
        let d = ws.drop_last();
        lemma_upgrade_actions_len(d, base, token);
        if forall|j: int| 0 <= j < ws.len() ==> (#[trigger] url_parse(action_url(base, ws[j], token))) is Some {
            assert forall|j: int| 0 <= j < d.len() implies (#[trigger] url_parse(action_url(base, d[j], token))) is Some by {
                assert(d[j] == ws[j]);
            }
            assert(url_parse(action_url(base, ws[ws.len() - 1], token)) is Some);
        }
    }
}

proof fn lemma_chunks_joined(ws: Seq<Workload>, k: nat)
    requires
        k <= chunk_count(ws.len()),
    ensures
        chunks_joined(ws, k) == ws.take(if 3 * k <= ws.len() { 3 * k as int } else { ws.len() as int }),
    decreases k,
{
    if k == 0 {
        assert(ws.take(0) =~= Seq::<Workload>::empty());
    } else {
        lemma_chunks_joined(ws, (k - 1) as nat);
        let a = 3 * (k - 1);
        assert(a < ws.len());
        let e = if 3 * k <= ws.len() { 3 * k as int } else { ws.len() as int };
        assert(ws.take(a as int) + ws.subrange(a as int, e) =~= ws.take(e));
    }
}

proof fn lemma_total_actions_prefix(ps: Seq<PayloadView>, k: int)
    requires
        0 <= k < ps.len(),
    ensures
        total_action_count(ps.take(k + 1)) == total_action_count(ps.take(k)) + action_count(ps[k]),
{
    assert(ps.take(k + 1).drop_last() =~= ps.take(k));
}

/// No batch notification carries more action buttons than the ntfy server
/// accepts, and a message that carries buttons carries at least one.
pub proof fn lemma_batch_within_action_limit(
    ws: Seq<Workload>,
    topic: Seq<char>,
    callback_url: Option<Seq<char>>,
    token: Option<Seq<char>>,
)
    ensures
        forall|i: int| 0 <= i < batch_payloads(ws, topic, callback_url, token).len()
            ==> #[trigger] action_count(batch_payloads(ws, topic, callback_url, token)[i]) <= NTFY_MAX_ACTIONS,
        forall|i: int| 0 <= i < batch_payloads(ws, topic, callback_url, token).len()
            ==> match (#[trigger] batch_payloads(ws, topic, callback_url, token)[i]).actions {
                Some(a) => a.len() > 0,
                None => true,
            },
{
    let ps = batch_payloads(ws, topic, callback_url, token);
    assert forall|i: int| 0 <= i < ps.len() implies #[trigger] action_count(ps[i]) <= NTFY_MAX_ACTIONS by {
        let c = chunk_of(ws, i);
        assert(c.len() <= 3);
        match callback_url {
            Some(base) => lemma_upgrade_actions_len(c, base, token),
            None => {},
        }
    }
}

/// The messages split the workloads in order: joining the workloads of all
/// messages gives back every workload, each once, and no message is empty.
pub proof fn lemma_batch_partitions_workloads(ws: Seq<Workload>)
    ensures
        chunks_joined(ws, chunk_count(ws.len())) == ws,
        forall|i: int| 0 <= i < chunk_count(ws.len()) ==> (#[trigger] chunk_of(ws, i)).len() > 0,
        ws.len() == 0 <==> chunk_count(ws.len()) == 0,
{
    lemma_chunks_joined(ws, chunk_count(ws.len()));
    assert(ws.take(ws.len() as int) =~= ws);
}

/// With a callback URL configured, every workload whose callback URL parses
/// gets its button: when all of them parse, the messages carry exactly one
/// button per workload, none dropped.
pub proof fn lemma_batch_no_action_dropped(
    ws: Seq<Workload>,
    topic: Seq<char>,
    base: Seq<char>,
    token: Option<Seq<char>>,
)
    requires
        forall|j: int| 0 <= j < ws.len() ==> (#[trigger] url_parse(action_url(base, ws[j], token))) is Some,
    ensures
        total_action_count(batch_payloads(ws, topic, Some(base), token)) == ws.len(),
{
    let ps = batch_payloads(ws, topic, Some(base), token);
    let total = chunk_count(ws.len());
    lemma_batch_actions_prefix(ws, topic, base, token, total);
    assert(ps.take(total as int) =~= ps);
}

/// When every callback URL parses, the buttons of a list of workloads are
/// the Upgrade buttons of those workloads, in order, each with the parsed
/// callback URL of its own workload.
pub proof fn lemma_button_of_each_workload(ws: Seq<Workload>, base: Seq<char>, token: Option<Seq<char>>)
    requires
        forall|j: int| 0 <= j < ws.len() ==> (#[trigger] url_parse(action_url(base, ws[j], token))) is Some,
    ensures
        upgrade_actions(ws, base, token).len() == ws.len(),
        forall|j: int| 0 <= j < ws.len() ==> #[trigger] upgrade_actions(ws, base, token)[j] == (ActionView {
            action: ActionType::Http,
            label: "Upgrade"@,
            url: url_parse(action_url(base, ws[j], token))->0,
        }),
    decreases ws.len(),
{
    if ws.len() > 0 {
        let d = ws.drop_last();
        assert forall|j: int| 0 <= j < d.len() implies (#[trigger] url_parse(action_url(base, d[j], token))) is Some by {
            assert(d[j] == ws[j]);
        }
        lemma_button_of_each_workload(d, base, token);
        assert(url_parse(action_url(base, ws[ws.len() - 1], token)) is Some);
        assert forall|j: int| 0 <= j < ws.len() implies #[trigger] upgrade_actions(ws, base, token)[j] == (ActionView {
            action: ActionType::Http,
            label: "Upgrade"@,
            url: url_parse(action_url(base, ws[j], token))->0,
        }) by {
            if j < d.len() {
                assert(d[j] == ws[j]);
            }
        }
    }
}

/// With a callback URL configured and every callback URL parsing, button
/// `k` of message `i` is the Upgrade button of workload `3 * i + k`, with
/// the parsed callback URL of that workload.
pub proof fn lemma_batch_button_of_each_workload(ws: Seq<Workload>, topic: Seq<char>, base: Seq<char>, token: Option<Seq<char>>, i: int, k: int)
    requires
        forall|j: int| 0 <= j < ws.len() ==> (#[trigger] url_parse(action_url(base, ws[j], token))) is Some,
        0 <= i < chunk_count(ws.len()),
        0 <= k < chunk_of(ws, i).len(),
    ensures
        batch_payloads(ws, topic, Some(base), token)[i].actions is Some,
        k < batch_payloads(ws, topic, Some(base), token)[i].actions->0.len(),
        batch_payloads(ws, topic, Some(base), token)[i].actions->0[k] == (ActionView {
            action: ActionType::Http,
            label: "Upgrade"@,
            url: url_parse(action_url(base, ws[3 * i + k], token))->0,
        }),
{
    let c = chunk_of(ws, i);
    assert forall|j: int| 0 <= j < c.len() implies (#[trigger] url_parse(action_url(base, c[j], token))) is Some by {
        assert(c[j] == ws[3 * i + j]);
    }
    lemma_button_of_each_workload(c, base, token);
    assert(c[k] == ws[3 * i + k]);
    let ps = batch_payloads(ws, topic, Some(base), token);
    assert(ps[i] == batch_payload(c, (i + 1) as nat, chunk_count(ws.len()), topic, Some(base), token));
}

proof fn lemma_batch_actions_prefix(
    ws: Seq<Workload>,
    topic: Seq<char>,
    base: Seq<char>,
    token: Option<Seq<char>>,
    k: nat,
)
    requires
        k <= chunk_count(ws.len()),
        forall|j: int| 0 <= j < ws.len() ==> (#[trigger] url_parse(action_url(base, ws[j], token))) is Some,
    ensures
        total_action_count(batch_payloads(ws, topic, Some(base), token).take(k as int))
            == (if 3 * k <= ws.len() { 3 * k as int } else { ws.len() as int }),
    decreases k,
{
    let ps = batch_payloads(ws, topic, Some(base), token);
    if k == 0 {
        assert(ps.take(0) =~= Seq::<PayloadView>::empty());
    } else {
        let i = k - 1;
        lemma_batch_actions_prefix(ws, topic, base, token, (k - 1) as nat);
        let c = chunk_of(ws, i);
        let a = 3 * i;
        assert forall|j: int| 0 <= j < c.len() implies (#[trigger] url_parse(action_url(base, c[j], token))) is Some by {
            assert(c[j] == ws[a + j]);
        }
        lemma_upgrade_actions_len(c, base, token);
        lemma_total_actions_prefix(ps, i);
        assert(action_count(ps[i]) == c.len());
    }
}

fn batch_title_text(part: usize, total: usize) -> (t: String)
    ensures
        t@ == batch_title(part as nat, total as nat),
{
    if total > 1 {
        let mut t = String::from_str("SlackWatch Updates (");
        push_decimal(&mut t, part as u64);
        t.append("/");
        push_decimal(&mut t, total as u64);
        t.append(")");
        t
    } else {
        String::from_str("SlackWatch Updates")
    }
}

fn batch_message_text(ws: &[Workload], start: usize, end: usize) -> (m: String)
    requires
        start <= end <= ws@.len(),
    ensures
        m@ == batch_message(ws@.subrange(start as int, end as int)),
{
    let mut m = String::from_str("**Update Available**\n\n");
    let mut j = start;
    assert(ws@.subrange(start as int, start as int) =~= Seq::<Workload>::empty());
    while j < end
        invariant
            start <= j <= end <= ws@.len(),
            m@ == "**Update Available**\n\n"@ + update_lines(ws@.subrange(start as int, j as int)),
        decreases end - j,
    {
        let w = &ws[j];
        let ghost before = m@;
        m.append("- **");
        m.append(w.name.as_str());
        m.append("**: ");
        m.append(w.current_version.as_str());
        m.append(" → ");
        m.append(w.latest_version.as_str());
        m.append("\n");
        proof {
            let sub = ws@.subrange(start as int, j + 1);
            assert(sub.drop_last() =~= ws@.subrange(start as int, j as int));
            assert(sub.last() == ws@[j as int]);
            assert(m@ =~= before + update_line(ws@[j as int]));
        }
        j = j + 1;
    }
    m
}

fn action_url_text(base: &str, w: &Workload, token: &Option<String>) -> (u: String)
    ensures
        u@ == action_url(base@, *w, opt_str(*token)),
        contains(u@, "?action="@ + w.name@ + "&namespace="@),
        contains(u@, "&namespace="@ + w.namespace@ + "&latest_version="@),
        contains(u@, "&latest_version="@ + w.latest_version@),
{
    let u = action_url_string(base, w, token);
    proof {
        lemma_action_url_names_workload(base@, *w, opt_str(*token));
    }
    u
}

fn action_url_string(base: &str, w: &Workload, token: &Option<String>) -> (u: String)
    ensures
        u@ == action_url(base@, *w, opt_str(*token)),
{
    let mut u = String::from_str(base);
    u.append("/api/ntfy/callback?action=");
    u.append(w.name.as_str());
    u.append("&namespace=");
    u.append(w.namespace.as_str());
    u.append("&latest_version=");
    u.append(w.latest_version.as_str());
    match token {
        Some(t) => {
            u.append("&token=");
            u.append(t.as_str());
        },
        None => {},
    }
    assert(u@ =~= action_url(base@, *w, opt_str(*token)));
    u
}

/// Whether there is any update to announce; with none, no message is sent.
pub fn has_updates(workloads: &Vec<Workload>) -> (b: bool)
    ensures
        b == (workloads@.len() > 0),
{
    workloads.len() > 0
}

/// The callback URL of a workload's Upgrade button calls back with that
/// workload: its name as `action`, its own namespace as `namespace`, its
/// latest version as `latest_version`, and the callback token, if any, as
/// `token`.
pub proof fn lemma_action_url_names_workload(base: Seq<char>, w: Workload, token: Option<Seq<char>>)
    ensures
        contains(action_url(base, w, token), "?action="@ + w.name@ + "&namespace="@),
        contains(action_url(base, w, token), "&namespace="@ + w.namespace@ + "&latest_version="@),
        contains(action_url(base, w, token), "&latest_version="@ + w.latest_version@),
        token matches Some(t) ==> contains(action_url(base, w, token), "&token="@ + t),
{
    let u = action_url(base, w, token);
    let tail: Seq<char> = match token {
        Some(t) => "&token="@ + t,
        None => Seq::empty(),
    };
    let a = "?action="@ + w.name@ + "&namespace="@;
    let n = "&namespace="@ + w.namespace@ + "&latest_version="@;
    let l = "&latest_version="@ + w.latest_version@;
    assert(u =~= (base + "/api/ntfy/callback"@) + a + (w.namespace@ + "&latest_version="@ + w.latest_version@ + tail))
        by { reveal_strlit("/api/ntfy/callback?action="); reveal_strlit("/api/ntfy/callback"); reveal_strlit("?action="); }
    lemma_contains_middle(base + "/api/ntfy/callback"@, a, w.namespace@ + "&latest_version="@ + w.latest_version@ + tail);
    assert(u =~= (base + "/api/ntfy/callback?action="@ + w.name@) + n + (w.latest_version@ + tail));
    lemma_contains_middle(base + "/api/ntfy/callback?action="@ + w.name@, n, w.latest_version@ + tail);
    assert(u =~= (base + "/api/ntfy/callback?action="@ + w.name@ + "&namespace="@ + w.namespace@) + l + tail);
    lemma_contains_middle(base + "/api/ntfy/callback?action="@ + w.name@ + "&namespace="@ + w.namespace@, l, tail);
    if let Some(t) = token {
        let pre = base + "/api/ntfy/callback?action="@ + w.name@ + "&namespace="@ + w.namespace@ + l;
        assert(u =~= pre + ("&token="@ + t) + Seq::<char>::empty());
        lemma_contains_middle(pre, "&token="@ + t, Seq::empty());
    }
}

/// The buttons made from parsed callback URLs: an `Upgrade` HTTP button
/// for each URL that parsed, in order; one that did not parse gives none.
pub open spec fn buttons_of(parsed: Seq<Option<Seq<char>>>) -> Seq<ActionView>
    decreases parsed.len(),
{
    if parsed.len() == 0 {
        Seq::empty()
    } else {
        let prev = buttons_of(parsed.drop_last());
        match parsed.last() {
            Some(u) => prev.push(ActionView { action: ActionType::Http, label: "Upgrade"@, url: u }),
            None => prev,
        }
    }
}

/// What parsing the callback URL of each workload gives.
pub open spec fn parsed_urls(ws: Seq<Workload>, base: Seq<char>, token: Option<Seq<char>>) -> Seq<Option<Seq<char>>> {
    ws.map_values(|w: Workload| url_parse(action_url(base, w, token)))
}

/// The upgrade buttons of workloads are the buttons made from their
/// parsed callback URLs.
pub proof fn lemma_upgrade_actions_are_buttons(ws: Seq<Workload>, base: Seq<char>, token: Option<Seq<char>>)
    ensures
        upgrade_actions(ws, base, token) == buttons_of(parsed_urls(ws, base, token)),
    decreases ws.len(),
{
    if ws.len() > 0 {
        lemma_upgrade_actions_are_buttons(ws.drop_last(), base, token);
        assert(parsed_urls(ws, base, token).drop_last() =~= parsed_urls(ws.drop_last(), base, token));
    }
}

/// Makes the `Upgrade` buttons from the parsed callback URLs (`None` for a
/// URL that did not parse).
pub fn upgrade_buttons(parsed: &Vec<Option<String>>) -> (a: Vec<Action>)
    ensures
        actions_view(a@) == buttons_of(parsed@.map_values(|o: Option<String>| opt_str(o))),
{
    let ghost urls = parsed@.map_values(|o: Option<String>| opt_str(o));
    let mut a: Vec<Action> = Vec::new();
    let mut j: usize = 0;
    assert(actions_view(a@) =~= buttons_of(urls.take(0)));
    while j < parsed.len()
        invariant
            j <= parsed@.len(),
            urls == parsed@.map_values(|o: Option<String>| opt_str(o)),
            actions_view(a@) == buttons_of(urls.take(j as int)),
        decreases parsed@.len() - j,
    {
        proof {
            assert(urls.take(j + 1).drop_last() =~= urls.take(j as int));
            assert(urls.take(j + 1).last() == opt_str(parsed@[j as int]));
        }
        match &parsed[j] {
            Some(u) => {
                let ghost before = a@;
                a.push(Action { action: ActionType::Http, label: String::from_str("Upgrade"), url: String::from_str(u.as_str()) });
                assert(actions_view(a@) =~= actions_view(before).push(a@.last()@));
            },
            None => {},
        }
        j = j + 1;
    }
    assert(urls.take(parsed@.len() as int) =~= urls);
    a
}

fn upgrade_action_list(ws: &[Workload], start: usize, end: usize, base: &str, token: &Option<String>) -> (a: Vec<Action>)
    requires
        start <= end <= ws@.len(),
    ensures
        actions_view(a@) == upgrade_actions(ws@.subrange(start as int, end as int), base@, opt_str(*token)),
{
    let mut parsed: Vec<Option<String>> = Vec::new();
    let mut j = start;
    while j < end
        invariant
            start <= j <= end <= ws@.len(),
            parsed@.len() == j - start,
            forall|k: int| 0 <= k < j - start ==> #[trigger] opt_str(parsed@[k]) == url_parse(
                action_url(base@, ws@[start + k], opt_str(*token)),
            ),
        decreases end - j,
    {
        let url_text = action_url_text(base, &ws[j], token);
        parsed.push(parse_url(url_text.as_str()));
        j = j + 1;
    }
    let a = upgrade_buttons(&parsed);
    proof {
        let sub = ws@.subrange(start as int, end as int);
        lemma_upgrade_actions_are_buttons(sub, base@, opt_str(*token));
        assert(parsed@.map_values(|o: Option<String>| opt_str(o)) =~= parsed_urls(sub, base@, opt_str(*token)));
    }
    a
}

/// Builds part `part` of `total` batch notifications, for the workloads
/// `ws[start..end]`.
fn chunk_payload(
    ws: &[Workload],
    start: usize,
    end: usize,
    part: usize,
    total: usize,
    topic: &str,
    callback_url: &Option<String>,
    callback_token: &Option<String>,
) -> (p: Payload)
    requires
        start <= end <= ws@.len(),
    ensures
        p@ == batch_payload(
            ws@.subrange(start as int, end as int),
            part as nat,
            total as nat,
            topic@,
            opt_str(*callback_url),
            opt_str(*callback_token),
        ),
{
    let title = batch_title_text(part, total);
    let message = batch_message_text(ws, start, end);
    let actions: Vec<Action> = match callback_url {
        Some(base) => upgrade_action_list(ws, start, end, base.as_str(), callback_token),
        None => Vec::new(),
    };
    let tags = vec![String::from_str("Update")];
    let p = Payload {
        topic: String::from_str(topic),
        message: message,
        title: Some(title),
        tags: tags,
        priority: Priority::High,
        actions: if actions.len() > 0 { Some(actions) } else { None },
        markdown: true,
    };
    assert(p@.tags =~= seq!["Update"@]);
    assert(p@ == batch_payload(
        ws@.subrange(start as int, end as int),
        part as nat,
        total as nat,
        topic@,
        opt_str(*callback_url),
        opt_str(*callback_token),
    ));
    p
}

/// Splits the workloads with available updates into ntfy messages of at most
/// [`NTFY_MAX_ACTIONS`] workloads each, so that no message carries more action
/// buttons than the server accepts. With a callback URL configured, every
/// workload whose callback URL parses gets an "Upgrade" button.
pub fn build_batch_payloads(
    workloads: &[Workload],
    topic: &str,
    callback_url: &Option<String>,
    callback_token: &Option<String>,
) -> (r: Vec<Payload>)
    ensures
        r@.map_values(|p: Payload| p@) == batch_payloads(
            workloads@,
            topic@,
            opt_str(*callback_url),
            opt_str(*callback_token),
        ),
{
    let n = workloads.len();
    let total: usize = if n % 3 == 0 { n / 3 } else { n / 3 + 1 };
    assert(total as nat == chunk_count(n as nat));
    let mut out: Vec<Payload> = Vec::new();
    let mut i: usize = 0;
    while i < total
        invariant
            n == workloads@.len(),
            total as nat == chunk_count(n as nat),
            i <= total,
            out@.len() == i,
            forall|k: int| 0 <= k < i ==> #[trigger] out@[k]@ == batch_payload(
                chunk_of(workloads@, k),
                (k + 1) as nat,
                total as nat,
                topic@,
                opt_str(*callback_url),
                opt_str(*callback_token),
            ),
        decreases total - i,
    {
        let start = 3 * i;
        let end = if start + 3 <= n { start + 3 } else { n };
        let p = chunk_payload(workloads, start, end, i + 1, total, topic, callback_url, callback_token);
        out.push(p);
        i = i + 1;
    }
    assert(out@.map_values(|p: Payload| p@) =~= batch_payloads(
        workloads@,
        topic@,
        opt_str(*callback_url),
        opt_str(*callback_token),
    ));
    out
}

/// The message announcing that `w` was committed at its latest version.
pub open spec fn commit_message(w: Workload) -> Seq<char> {
    "Deployment "@ + w.name@ + " has been updated to version "@ + w.latest_version@
}

/// The notification sent after a GitOps commit for `w`.
pub open spec fn commit_payload(w: Workload, topic: Seq<char>) -> PayloadView {
    PayloadView {
        topic: topic,
        message: commit_message(w),
        title: Some(w.name@),
        tags: seq!["Update"@],
        priority: Priority::Default,
        actions: None,
        markdown: true,
    }
}

/// Builds the notification that tells that `workload` was updated to its
/// latest version.
pub fn commit_notification(workload: &Workload, topic: &str) -> (p: Payload)
    ensures
        p@ == commit_payload(*workload, topic@),
{
    let mut message = String::from_str("Deployment ");
    message.append(workload.name.as_str());
    message.append(" has been updated to version ");
    message.append(workload.latest_version.as_str());
    let p = Payload {
        topic: String::from_str(topic),
        message: message,
        title: Some(String::from_str(workload.name.as_str())),
        tags: vec![String::from_str("Update")],
        priority: Priority::Default,
        actions: None,
        markdown: true,
    };
    assert(p@.tags =~= seq!["Update"@]);
    assert(p@.message =~= commit_message(*workload));
    p
}

/// The ntfy section of `settings`, or why there is none.
pub open spec fn ntfy_section(settings: Settings) -> Result<Ntfy, Seq<char>> {
    match settings.notifications {
        Some(n) => match n.ntfy {
            Some(c) => Ok(c),
            None => Err("No Ntfy Config Found"@),
        },
        None => Err("No Notifications Config Found"@),
    }
}

/// Takes the ntfy section out of the loaded settings.
pub fn load_settings(settings: Settings) -> (r: Result<Ntfy, String>)
    ensures
        match r {
            Ok(c) => ntfy_section(settings) == Ok::<Ntfy, Seq<char>>(c),
            Err(e) => ntfy_section(settings) == Err::<Ntfy, Seq<char>>(e@),
        },
{
    match settings.notifications {
        Some(n) => match n.ntfy {
            Some(c) => Ok(c),
            None => Err(String::from_str("No Ntfy Config Found")),
        },
        None => Err(String::from_str("No Notifications Config Found")),
    }
}

/// The number of seconds a delay setting stands for, before any limit of
/// machine integers: `"off"` disables, `"<n>m"` is minutes and `"<n>h"` is
/// hours, after surrounding whitespace is trimmed.
pub open spec fn duration_secs(s: Seq<char>) -> Option<nat> {
    if s == "off"@ {
        None
    } else {
        let t = trim(s);
        if t.len() > 0 && t.last() == 'm' && parse_u64_spec(t.drop_last()) is Some {
            Some(parse_u64_spec(t.drop_last())->0 * 60)
        } else if t.len() > 0 && t.last() == 'h' && parse_u64_spec(t.drop_last()) is Some {
            Some(parse_u64_spec(t.drop_last())->0 * 3600)
        } else {
            None
        }
    }
}

/// Whitespace around a delay setting never changes the delay it names,
/// `"off"` included.
pub proof fn lemma_duration_ignores_whitespace(s: Seq<char>)
    ensures
        duration_secs(trim(s)) == duration_secs(s),
{
    reveal_strlit("off");
    lemma_trim_idempotent(s);
    if s == "off"@ {
        assert(trim_start(s) == s);
        assert(trim_end(s) == s);
    }
}

/// The delay `s` names, if any, fits in a `u64` count of seconds.
pub open spec fn duration_in_range(s: Seq<char>) -> bool {
    match duration_secs(s) {
        Some(v) => v <= u64::MAX,
        None => true,
    }
}

proof fn lemma_decimal_digits(n: nat)
    ensures
        decimal(n).len() > 0,
        all_digits(decimal(n)),
        decimal_value(decimal(n)) == n,
    decreases n,
{
    let d = n % 10;
    assert(digit_char(d) as int - '0' as int == d && is_digit(digit_char(d)));
    if n >= 10 {
        lemma_decimal_digits(n / 10);
        let s = decimal(n);
        assert(s.drop_last() =~= decimal(n / 10));
        assert(s.last() == digit_char(d));
        assert(decimal_value(s) == decimal_value(decimal(n / 10)) * 10 + d);
        assert((n / 10) * 10 + n % 10 == n) by (nonlinear_arith);
        assert forall|i: int| 0 <= i < s.len() implies is_digit(#[trigger] s[i]) by {
            if i < s.len() - 1 {
                assert(s[i] == decimal(n / 10)[i]);
            }
        }
    } else {
        let s = decimal(n);
        assert(s.drop_last() =~= Seq::<char>::empty());
        assert(decimal_value(s.drop_last()) == 0);
        assert(n % 10 == n);
        assert(s.last() == digit_char(n));
        assert(decimal_value(s) == digit_value(digit_char(n)));
    }
}

proof fn lemma_unit_delay(n: nat, unit: char)
    requires
        n <= u64::MAX,
        unit == 'm' || unit == 'h',
    ensures
        trim(decimal(n).push(unit)) == decimal(n).push(unit),
        parse_u64_spec(decimal(n).push(unit).drop_last()) == Some(n),
        decimal(n).push(unit) != "off"@,
{
    let s = decimal(n).push(unit);
    lemma_decimal_digits(n);
    assert(is_digit(s[0]));
    assert(!is_whitespace(s[0]));
    assert(trim_start(s) == s);
    assert(!is_whitespace(s.last()));
    assert(trim_end(s) == s);
    assert(s.drop_last() =~= decimal(n));
    reveal_strlit("off");
    assert(s != "off"@) by {
        if s == "off"@ {
            assert(s[0] == 'o');
        }
    }
}

/// A delay of whole minutes: `"<n>m"` with `n` written in decimal is `n`
/// minutes.
pub proof fn lemma_minutes_delay(n: nat)
    requires
        n <= u64::MAX,
    ensures
        duration_secs(decimal(n).push('m')) == Some(n * 60),
{
    lemma_unit_delay(n, 'm');
}

/// A delay of whole hours: `"<n>h"` with `n` written in decimal is `n`
/// hours.
pub proof fn lemma_hours_delay(n: nat)
    requires
        n <= u64::MAX,
    ensures
        duration_secs(decimal(n).push('h')) == Some(n * 3600),
{
    lemma_unit_delay(n, 'h');
}

/// Whether `parse_duration` can take `s` (its seconds fit in a `u64`).
pub fn duration_fits(s: &str) -> (b: bool)
    ensures
        b == duration_in_range(s@),
{
    if str_equals(s, "off") {
        return true;
    }
    let t = trim_str(s);
    let n = t.unicode_len();
    if n > 0 {
        let last = t.get_char(n - 1);
        let num = t.substring_char(0, n - 1);
        assert(num@ =~= t@.drop_last());
        if last == 'm' {
            if let Some(v) = parse_u64(num) {
                return v <= u64::MAX / 60;
            }
        }
        if last == 'h' {
            if let Some(v) = parse_u64(num) {
                return v <= u64::MAX / 3600;
            }
        }
    }
    true
}

/// Parses a rescan delay into whole seconds: `"off"` gives `None`, `"5m"`
/// gives 300 and `"1h"` gives 3600; anything else gives `None`.
pub fn parse_duration(s: &str) -> (r: Option<u64>)
    requires
        duration_in_range(s@),
    ensures
        match r {
            Some(v) => duration_secs(s@) == Some(v as nat),
            None => duration_secs(s@) is None,
        },
{
    if str_equals(s, "off") {
        return None;
    }
    let t = trim_str(s);
    let n = t.unicode_len();
    if n > 0 {
        let last = t.get_char(n - 1);
        let num = t.substring_char(0, n - 1);
        assert(num@ =~= t@.drop_last());
        if last == 'm' {
            if let Some(minutes) = parse_u64(num) {
                return Some(minutes * 60);
            }
        }
        if last == 'h' {
            if let Some(hours) = parse_u64(num) {
                return Some(hours * 3600);
            }
        }
    }
    None
}

} // verus!
