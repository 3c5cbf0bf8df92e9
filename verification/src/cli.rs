//! The command-line tool's decisions and texts: which group a command works
//! on, which groups a description names, what a confirmation answer means,
//! the requests a command would send, when and in what order it sends them,
//! and the lines it prints. Reading input, printing and sending stay with
//! the tool itself.

use vstd::prelude::*;
use crate::addr::{ipv4_text, ipv4_to_string, ipv6_text, ipv6_to_string};
use crate::ip_detect::DetectedIps;
use crate::text::{
    ascii_lower, dec_text, eq_ignore_ascii_case, eq_ignore_case, int_text, pad_right, push_dec, push_int,
    push_padded, push_str, string_from, trim, trim_ws,
};
use crate::vultr::client::{curl_text, method_text, ApiRequest, ApiRequestView};
use crate::vultr::models::{
    ip_type_text, protocol_text, FirewallGroup, FirewallGroupView, FirewallRule, FirewallRuleReq,
    FirewallRuleReqView, FirewallRuleView,
};
use crate::vultr::requests::{create_firewall_rule, delete_firewall_rule, rule_path, rules_path};
use crate::vultr::client::Method;

verus! {

// ---------------------------------------------------------------------
// Choosing the group
// ---------------------------------------------------------------------

/// How a command names the firewall group it works on.
#[derive(Debug)]
pub enum GroupSelection {
    /// An explicit group ID, used as it is.
    Id(String),
    /// A description to look up among the account's groups.
    Description(String),
    /// Neither was given.
    Missing,
}

/// An explicit `group_id` is used as-is; otherwise `group_description` is
/// to be looked up; with neither, the group is missing.
pub fn select_group(group_id: Option<&str>, group_description: Option<&str>) -> (s: GroupSelection)
    ensures
        match (group_id, group_description) {
            (Some(id), _) => s matches GroupSelection::Id(i) && i@ == id@,
            (None, Some(d)) => s matches GroupSelection::Description(x) && x@ == d@,
            (None, None) => s is Missing,
        },
{
    match (group_id, group_description) {
        (Some(id), _) => GroupSelection::Id(string_from(id)),
        (None, Some(desc)) => GroupSelection::Description(string_from(desc)),
        (None, None) => GroupSelection::Missing,
    }
}

/// The groups whose description equals `description` up to ASCII case, in
/// their order.
pub open spec fn groups_matching(groups: Seq<FirewallGroupView>, description: Seq<char>) -> Seq<
    FirewallGroupView,
> {
    groups.filter(|g: FirewallGroupView| eq_ignore_ascii_case(g.description, description))
}

/// Whether `b` is `a` with some letters switched between small and capital
/// ASCII forms (and nothing else changed).
pub open spec fn case_variant(a: Seq<char>, b: Seq<char>) -> bool {
    &&& a.len() == b.len()
    &&& forall|i: int|
        0 <= i < a.len() ==> {
            ||| #[trigger] b[i] == a[i]
            ||| ('a' <= a[i] <= 'z' && b[i] as int == a[i] as int - 32)
            ||| ('A' <= a[i] <= 'Z' && b[i] as int == a[i] as int + 32)
        }
}

/// A description lookup does not care about ASCII letter case: two
/// descriptions that differ only in the case of some letters name the same
/// groups, in the same order. In particular a group is found by its
/// description written in any mix of cases.
pub proof fn lemma_lookup_ignores_case(
    groups: Seq<FirewallGroupView>,
    description: Seq<char>,
    written: Seq<char>,
)
    requires
        case_variant(description, written),
    ensures
        groups_matching(groups, written) == groups_matching(groups, description),
        forall|g: FirewallGroupView|
            #[trigger] groups.contains(g) && g.description == description ==> groups_matching(
                groups,
                written,
            ).contains(g),
{
    assert forall|i: int| 0 <= i < description.len() implies #[trigger] ascii_lower(description[i])
        == ascii_lower(written[i]) by {
        assert(written[i] == description[i] || ('a' <= description[i] <= 'z' && written[i] as int
            == description[i] as int - 32) || ('A' <= description[i] <= 'Z' && written[i] as int
            == description[i] as int + 32));
    }
    let p1 = |g: FirewallGroupView| eq_ignore_ascii_case(g.description, written);
    let p2 = |g: FirewallGroupView| eq_ignore_ascii_case(g.description, description);
    assert forall|g: FirewallGroupView| #[trigger] p1(g) == p2(g) by {
        if g.description.len() == description.len() {
            assert forall|i: int| 0 <= i < description.len() implies ascii_lower(
                #[trigger] g.description[i],
            ) == ascii_lower(written[i]) <==> ascii_lower(g.description[i]) == ascii_lower(
                description[i],
            ) by {
                assert(ascii_lower(description[i]) == ascii_lower(written[i]));
            }
        }
    }
    assert(p1 =~= p2);
    assert forall|g: FirewallGroupView|
        #[trigger] groups.contains(g) && g.description == description implies groups_matching(
        groups,
        written,
    ).contains(g) by {
        assert(p2(g));
        let i = choose|i: int| 0 <= i < groups.len() && groups[i] == g;
        groups.lemma_filter_contains(p2, i);
    }
}

/// The groups that a description names: since a description isn't
/// guaranteed unique or exact the way an ID is, there may be none, one or
/// several.
pub fn find_groups_by_description(groups: &[FirewallGroup], description: &str) -> (found: Vec<
    FirewallGroup,
>)
    ensures
        found.deep_view() == groups_matching(groups.deep_view(), description@),
{
    let ghost all = groups.deep_view();
    let ghost pred = |g: FirewallGroupView| eq_ignore_ascii_case(g.description, description@);
    let mut found: Vec<FirewallGroup> = Vec::new();
    let mut i: usize = 0;
    while i < groups.len()
        invariant
            i <= groups@.len(),
            all == groups.deep_view(),
            pred == (|g: FirewallGroupView| eq_ignore_ascii_case(g.description, description@)),
            found.deep_view() == all.take(i as int).filter(pred),
        decreases groups.len() - i,
    {
        proof {
            reveal_with_fuel(Seq::<_>::filter, 1);
        }
        let g = &groups[i];
        let ghost before = found.deep_view();
        assert(all.take(i + 1).drop_last() =~= all.take(i as int));
        assert(all.take(i + 1).last() == g@);
        if eq_ignore_case(g.description.as_str(), description) {
            found.push(g.clone());
            assert(found.deep_view() =~= before.push(g@));
        }
        i = i + 1;
    }
    assert(all.take(groups@.len() as int) =~= all);
    found
}

/// What a description lookup came to.
#[derive(Debug)]
pub enum GroupMatch {
    /// No group has the description.
    NotFound,
    /// Exactly one group has it.
    One(FirewallGroup),
    /// Several groups have it, so an explicit ID is needed.
    Ambiguous,
}

/// Decides a description lookup from the groups it found: none, exactly one
/// (which is then to be confirmed), or several.
pub fn group_match(found: &[FirewallGroup]) -> (m: GroupMatch)
    ensures
        found@.len() == 0 ==> m is NotFound,
        found@.len() == 1 ==> (m matches GroupMatch::One(g) && g@ == found@[0]@),
        found@.len() > 1 ==> m is Ambiguous,
{
    if found.len() == 0 {
        GroupMatch::NotFound
    } else if found.len() == 1 {
        GroupMatch::One(found[0].clone())
    } else {
        GroupMatch::Ambiguous
    }
}

/// Whether there is any address to open rules for.
pub fn has_usable_address(ips: &DetectedIps) -> (b: bool)
    ensures
        b == (ips.ipv4 is Some || ips.ipv6 is Some),
{
    ips.ipv4.is_some() || ips.ipv6.is_some()
}

/// Whether a confirmation answer is a yes: `y` or `yes` in any case, with
/// surrounding whitespace ignored. Anything else is a no.
pub open spec fn affirmative(answer: Seq<char>) -> bool {
    eq_ignore_ascii_case(trim_ws(answer), seq!['y']) || eq_ignore_ascii_case(
        trim_ws(answer),
        seq!['y', 'e', 's'],
    )
}

/// Whether the user's answer to a yes/no question means yes; anything
/// other than an explicit "y"/"yes" (case aside) is treated as "no". Only
/// the letters of those words can lower-case to them, so comparing up to
/// ASCII case is the same as comparing the lower-cased answer.
pub fn is_affirmative(answer: &str) -> (yes: bool)
    ensures
        yes == affirmative(answer@),
{
    let t = trim(answer);
    let s = crate::text::string_of(&t);
    proof {
        reveal_strlit("y");
        reveal_strlit("yes");
    }
    eq_ignore_case(s.as_str(), "y") || eq_ignore_case(s.as_str(), "yes")
}

// ---------------------------------------------------------------------
// Sending what a command planned
// ---------------------------------------------------------------------

/// What a command that sends requests was told: whether it is a dry run,
/// whether sending was confirmed up front (`--yes`), and how many requests
/// it has listed.
#[derive(Clone, Copy, Debug, PartialEq, Eq, Structural)]
pub struct SendPlan {
    pub dry_run: bool,
    pub yes: bool,
    pub count: usize,
}

/// Where a command stands in sending its requests.
#[derive(Clone, Copy, Debug, PartialEq, Eq, Structural)]
pub enum SendState {
    /// The requests are listed; nothing is decided yet.
    Start,
    /// The user has been asked to confirm sending them.
    Confirming,
    /// The request at this index has been handed out for sending.
    Sending(usize),
    /// Nothing more will be sent.
    Done,
}

/// What the tool reports back after doing the last action.
#[derive(Debug)]
pub enum SendEvent {
    /// The requests have been listed (and shown); go on.
    Begin,
    /// The line the user answered the confirmation question with.
    Answer(String),
    /// The last request went out; whether Vultr accepted it.
    Sent(bool),
}

/// What the tool is to do next.
#[derive(Clone, Copy, Debug, PartialEq, Eq, Structural)]
pub enum SendAction {
    /// Stop without sending anything: it is a dry run.
    StopDryRun,
    /// Ask the user whether to send the listed requests.
    AskConfirmation,
    /// Stop without sending anything: the user did not confirm.
    StopAborted,
    /// Send the request at this index.
    Send(usize),
    /// Every request has been sent.
    Finish,
    /// The event does not fit where the command stands; do nothing.
    Ignore,
}

/// Sending begins at the first request, or is over at once when there are
/// none.
pub open spec fn start_sending(plan: SendPlan) -> (SendState, SendAction) {
    if plan.count == 0 {
        (SendState::Done, SendAction::Finish)
    } else {
        (SendState::Sending(0), SendAction::Send(0))
    }
}

/// One step of sending: a dry run stops before anything goes out; without
/// `--yes` the user is asked, and anything but a yes stops; then each
/// request is sent in order, the next one whatever became of the last.
pub open spec fn next_send(plan: SendPlan, state: SendState, event: SendEvent) -> (
    SendState,
    SendAction,
) {
    match state {
        SendState::Start => match event {
            SendEvent::Begin => if plan.dry_run {
                (SendState::Done, SendAction::StopDryRun)
            } else if plan.yes {
                start_sending(plan)
            } else {
                (SendState::Confirming, SendAction::AskConfirmation)
            },
            _ => (state, SendAction::Ignore),
        },
        SendState::Confirming => match event {
            SendEvent::Answer(a) => if affirmative(a@) {
                start_sending(plan)
            } else {
                (SendState::Done, SendAction::StopAborted)
            },
            _ => (state, SendAction::Ignore),
        },
        SendState::Sending(i) => match event {
            SendEvent::Sent(_) => if i + 1 < plan.count {
                (SendState::Sending((i + 1) as usize), SendAction::Send((i + 1) as usize))
            } else {
                (SendState::Done, SendAction::Finish)
            },
            _ => (state, SendAction::Ignore),
        },
        SendState::Done => (state, SendAction::Ignore),
    }
}

/// The actions that a run of events leads to from `state`, one per event.
pub open spec fn send_run(plan: SendPlan, state: SendState, events: Seq<SendEvent>) -> Seq<
    SendAction,
>
    decreases events.len(),
{
    if events.len() == 0 {
        Seq::empty()
    } else {
        let (next, action) = next_send(plan, state, events[0]);
        seq![action] + send_run(plan, next, events.drop_first())
    }
}

fn begin_sending(plan: SendPlan) -> (r: (SendState, SendAction))
    ensures
        r == start_sending(plan),
{
    if plan.count == 0 {
        (SendState::Done, SendAction::Finish)
    } else {
        (SendState::Sending(0), SendAction::Send(0))
    }
}

/// Decides what to do next from where the command stands and what just
/// happened.
pub fn send_step(plan: SendPlan, state: SendState, event: &SendEvent) -> (r: (
    SendState,
    SendAction,
))
    ensures
        r == next_send(plan, state, *event),
{
    match state {
        SendState::Start => match event {
            SendEvent::Begin => if plan.dry_run {
                (SendState::Done, SendAction::StopDryRun)
            } else if plan.yes {
                begin_sending(plan)
            } else {
                (SendState::Confirming, SendAction::AskConfirmation)
            },
            _ => (state, SendAction::Ignore),
        },
        SendState::Confirming => match event {
            SendEvent::Answer(a) => if is_affirmative(a.as_str()) {
                begin_sending(plan)
            } else {
                (SendState::Done, SendAction::StopAborted)
            },
            _ => (state, SendAction::Ignore),
        },
        SendState::Sending(i) => match event {
            SendEvent::Sent(_) => if plan.count > 0 && i < plan.count - 1 {
                (SendState::Sending(i + 1), SendAction::Send(i + 1))
            } else {
                (SendState::Done, SendAction::Finish)
            },
            _ => (state, SendAction::Ignore),
        },
        SendState::Done => (state, SendAction::Ignore),
    }
}

proof fn lemma_send_run_index(plan: SendPlan, state: SendState, events: Seq<SendEvent>, k: int)
    requires
        0 < k < events.len(),
    ensures
        send_run(plan, state, events).len() == events.len(),
        send_run(plan, state, events)[k] == send_run(
            plan,
            next_send(plan, state, events[0]).0,
            events.drop_first(),
        )[k - 1],
    decreases events.len(),
{
    lemma_send_run_len(plan, state, events);
}

proof fn lemma_send_run_len(plan: SendPlan, state: SendState, events: Seq<SendEvent>)
    ensures
        send_run(plan, state, events).len() == events.len(),
    decreases events.len(),
{
    if events.len() > 0 {
        lemma_send_run_len(plan, next_send(plan, state, events[0]).0, events.drop_first());
    }
}

/// A dry run sends nothing, whatever happens.
pub proof fn lemma_dry_run_sends_nothing(plan: SendPlan, events: Seq<SendEvent>)
    requires
        plan.dry_run,
    ensures
        forall|k: int|
            0 <= k < send_run(plan, SendState::Start, events).len() ==> !(#[trigger] send_run(
                plan,
                SendState::Start,
                events,
            )[k] is Send),
{
    lemma_dry_run_from(plan, SendState::Start, events);
}

proof fn lemma_dry_run_from(plan: SendPlan, state: SendState, events: Seq<SendEvent>)
    requires
        plan.dry_run,
        state is Start || state is Done,
    ensures
        forall|k: int|
            0 <= k < send_run(plan, state, events).len() ==> !(#[trigger] send_run(
                plan,
                state,
                events,
            )[k] is Send),
    decreases events.len(),
{
    lemma_send_run_len(plan, state, events);
    if events.len() > 0 {
        let next = next_send(plan, state, events[0]).0;
        lemma_dry_run_from(plan, next, events.drop_first());
        assert forall|k: int| 0 <= k < events.len() implies !(#[trigger] send_run(
            plan,
            state,
            events,
        )[k] is Send) by {
            if k > 0 {
                lemma_send_run_index(plan, state, events, k);
            }
        }
    }
}

/// Whether `e` is an answer that confirms sending.
pub open spec fn confirms(e: SendEvent) -> bool {
    e matches SendEvent::Answer(a) && affirmative(a@)
}

/// Nothing is sent without consent: each request goes out only when it is
/// not a dry run and either `--yes` was given or the user answered yes
/// (at that event or before it).
pub proof fn lemma_sends_need_consent(plan: SendPlan, events: Seq<SendEvent>)
    ensures
        forall|k: int|
            0 <= k < send_run(plan, SendState::Start, events).len() && (#[trigger] send_run(
                plan,
                SendState::Start,
                events,
            )[k] is Send) ==> !plan.dry_run && (plan.yes || exists|j: int|
                0 <= j <= k && #[trigger] confirms(events[j])),
{
    lemma_consent_from(plan, SendState::Start, events, false);
}

proof fn lemma_consent_from(
    plan: SendPlan,
    state: SendState,
    events: Seq<SendEvent>,
    consented: bool,
)
    requires
        (state is Sending || state is Confirming) ==> !plan.dry_run,
        state is Sending ==> consented,
    ensures
        forall|k: int|
            0 <= k < send_run(plan, state, events).len() && (#[trigger] send_run(
                plan,
                state,
                events,
            )[k] is Send) ==> !plan.dry_run && (consented || plan.yes || exists|j: int|
                0 <= j <= k && #[trigger] confirms(events[j])),
    decreases events.len(),
{
    lemma_send_run_len(plan, state, events);
    if events.len() > 0 {
        let next = next_send(plan, state, events[0]).0;
        let c2 = consented || plan.yes || confirms(events[0]);
        lemma_consent_from(plan, next, events.drop_first(), c2);
        assert forall|k: int|
            0 <= k < events.len() && (#[trigger] send_run(plan, state, events)[k] is Send) implies !plan.dry_run
            && (consented || plan.yes || exists|j: int| 0 <= j <= k && #[trigger] confirms(events[j])) by {
            if k > 0 {
                lemma_send_run_index(plan, state, events, k);
                let rest = events.drop_first();
                if !(consented || plan.yes || confirms(events[0])) {
                    let j = choose|j: int| 0 <= j <= k - 1 && #[trigger] confirms(rest[j]);
                    assert(confirms(events[j + 1]));
                } else if confirms(events[0]) {
                    assert(confirms(events[0]));
                }
            } else if !(consented || plan.yes) {
                assert(confirms(events[0]));
            }
        }
    }
}

proof fn lemma_sending_phase(plan: SendPlan, i: usize, events: Seq<SendEvent>)
    requires
        i < plan.count,
        events.len() == plan.count - i,
        forall|k: int| 0 <= k < events.len() ==> #[trigger] events[k] is Sent,
    ensures
        send_run(plan, SendState::Sending(i), events) == Seq::new(
            (plan.count - i - 1) as nat,
            |k: int| SendAction::Send((i + 1 + k) as usize),
        ) + seq![SendAction::Finish],
    decreases events.len(),
{
    assert(events[0] is Sent);
    let rest = events.drop_first();
    if i + 1 < plan.count {
        let j = (i + 1) as usize;
        lemma_sending_phase(plan, j, rest);
        assert(Seq::new((plan.count - i - 1) as nat, |k: int| SendAction::Send((i + 1 + k) as usize))
            =~= seq![SendAction::Send(j)] + Seq::new(
            (plan.count - j - 1) as nat,
            |k: int| SendAction::Send((j + 1 + k) as usize),
        ));
        assert(send_run(plan, SendState::Sending(i), events) =~= seq![SendAction::Send(j)]
            + send_run(plan, SendState::Sending(j), rest));
    } else {
        assert(rest.len() == 0);
        assert(send_run(plan, SendState::Done, rest) =~= Seq::<SendAction>::empty());
        assert(send_run(plan, SendState::Sending(i), events) =~= seq![SendAction::Finish]);
    }
}

/// The requests that a command sends once sending has begun: every one of
/// them, each once, in order, going on after a failure.
pub open spec fn all_sends(plan: SendPlan) -> Seq<SendAction> {
    Seq::new(plan.count as nat, |k: int| SendAction::Send(k as usize)) + seq![SendAction::Finish]
}

proof fn lemma_begin_sending(plan: SendPlan, events: Seq<SendEvent>)
    requires
        events.len() == plan.count,
        forall|k: int| 0 <= k < events.len() ==> #[trigger] events[k] is Sent,
    ensures
        seq![start_sending(plan).1] + send_run(plan, start_sending(plan).0, events) == all_sends(plan),
{
    if plan.count == 0 {
        assert(send_run(plan, SendState::Done, events) =~= Seq::<SendAction>::empty());
        assert(all_sends(plan) =~= seq![SendAction::Finish]);
    } else {
        let rest = events.drop_first();
        lemma_sending_phase(plan, 0, events);
        assert(all_sends(plan) =~= seq![SendAction::Send(0)] + Seq::new(
            (plan.count - 0 - 1) as nat,
            |k: int| SendAction::Send((0 + 1 + k) as usize),
        ) + seq![SendAction::Finish]);
    }
}

/// With `--yes`, a command that is not a dry run sends each of its requests
/// once, in order, and goes on after a failed one: after it begins, one
/// report per request (whatever its outcome) leads through every request to
/// the end.
pub proof fn lemma_yes_sends_every_request(plan: SendPlan, events: Seq<SendEvent>)
    requires
        !plan.dry_run,
        plan.yes,
        events.len() == plan.count + 1,
        events[0] is Begin,
        forall|k: int| 1 <= k < events.len() ==> #[trigger] events[k] is Sent,
    ensures
        send_run(plan, SendState::Start, events) == all_sends(plan),
{
    let rest = events.drop_first();
    assert forall|k: int| 0 <= k < rest.len() implies #[trigger] rest[k] is Sent by {
        assert(rest[k] == events[k + 1]);
    }
    lemma_begin_sending(plan, rest);
}

/// Without `--yes`, a command that is not a dry run asks first; once the
/// user answers yes it sends each of its requests once, in order, and goes
/// on after a failed one.
pub proof fn lemma_confirmed_sends_every_request(plan: SendPlan, events: Seq<SendEvent>)
    requires
        !plan.dry_run,
        !plan.yes,
        events.len() == plan.count + 2,
        events[0] is Begin,
        confirms(events[1]),
        forall|k: int| 2 <= k < events.len() ==> #[trigger] events[k] is Sent,
    ensures
        send_run(plan, SendState::Start, events) == seq![SendAction::AskConfirmation] + all_sends(
            plan,
        ),
{
    let rest = events.drop_first();
    let rest2 = rest.drop_first();
    assert forall|k: int| 0 <= k < rest2.len() implies #[trigger] rest2[k] is Sent by {
        assert(rest2[k] == events[k + 2]);
    }
    lemma_begin_sending(plan, rest2);
    assert(rest[0] == events[1]);
    assert(next_send(plan, SendState::Confirming, rest[0]) == start_sending(plan));
    assert(send_run(plan, SendState::Confirming, rest) =~= seq![start_sending(plan).1] + send_run(
        plan,
        start_sending(plan).0,
        rest2,
    ));
    assert(send_run(plan, SendState::Start, events) =~= seq![SendAction::AskConfirmation]
        + send_run(plan, SendState::Confirming, rest));
}

/// A user who does not answer yes stops a command without `--yes`: nothing
/// is sent, whatever is reported afterwards.
pub proof fn lemma_refusal_sends_nothing(plan: SendPlan, events: Seq<SendEvent>)
    requires
        !plan.dry_run,
        !plan.yes,
        events.len() >= 2,
        events[0] is Begin,
        events[1] is Answer,
        !confirms(events[1]),
    ensures
        send_run(plan, SendState::Start, events) == seq![
            SendAction::AskConfirmation,
            SendAction::StopAborted,
        ] + Seq::new((events.len() - 2) as nat, |k: int| SendAction::Ignore),
{
    let rest2 = events.drop_first().drop_first();
    let rest = events.drop_first();
    lemma_done_ignores(plan, rest2);
    assert(rest[0] == events[1]);
    assert(send_run(plan, SendState::Confirming, rest) =~= seq![SendAction::StopAborted]
        + send_run(plan, SendState::Done, rest2));
    assert(send_run(plan, SendState::Start, events) =~= seq![SendAction::AskConfirmation]
        + send_run(plan, SendState::Confirming, rest));
}

proof fn lemma_done_ignores(plan: SendPlan, events: Seq<SendEvent>)
    ensures
        send_run(plan, SendState::Done, events) == Seq::new(
            events.len(),
            |k: int| SendAction::Ignore,
        ),
    decreases events.len(),
{
    if events.len() > 0 {
        lemma_done_ignores(plan, events.drop_first());
        assert(send_run(plan, SendState::Done, events) =~= Seq::new(
            events.len(),
            |k: int| SendAction::Ignore,
        ));
    } else {
        assert(send_run(plan, SendState::Done, events) =~= Seq::new(
            events.len(),
            |k: int| SendAction::Ignore,
        ));
    }
}

// ---------------------------------------------------------------------
// Requests a command would send
// ---------------------------------------------------------------------

/// One create request per planned rule, in order.
pub fn create_rule_requests(group_id: &str, rules: &[FirewallRuleReq]) -> (reqs: Vec<ApiRequest>)
    ensures
        reqs.deep_view() == rules.deep_view().map_values(
            |r: FirewallRuleReqView|
                ApiRequestView { method: Method::Post, path: rules_path(group_id@), body: Some(r) },
        ),
{
    let ghost want = rules.deep_view().map_values(
        |r: FirewallRuleReqView|
            ApiRequestView { method: Method::Post, path: rules_path(group_id@), body: Some(r) },
    );
    let mut reqs: Vec<ApiRequest> = Vec::new();
    let mut i: usize = 0;
    while i < rules.len()
        invariant
            i <= rules@.len(),
            want == rules.deep_view().map_values(
                |r: FirewallRuleReqView|
                    ApiRequestView {
                        method: Method::Post,
                        path: rules_path(group_id@),
                        body: Some(r),
                    },
            ),
            reqs.deep_view() == want.take(i as int),
        decreases rules.len() - i,
    {
        let ghost before = reqs.deep_view();
        reqs.push(create_firewall_rule(group_id, &rules[i]));
        assert(reqs.deep_view() =~= before.push(want[i as int]));
        assert(want.take(i + 1) =~= want.take(i as int).push(want[i as int]));
        i = i + 1;
    }
    assert(want.take(rules@.len() as int) =~= want);
    reqs
}

/// One delete request per rule ID, in order.
pub fn delete_rule_requests(group_id: &str, rule_ids: &[u64]) -> (reqs: Vec<ApiRequest>)
    ensures
        reqs.deep_view() == rule_ids@.map_values(
            |id: u64|
                ApiRequestView { method: Method::Delete, path: rule_path(group_id@, id), body: None },
        ),
{
    let ghost want = rule_ids@.map_values(
        |id: u64|
            ApiRequestView { method: Method::Delete, path: rule_path(group_id@, id), body: None },
    );
    let mut reqs: Vec<ApiRequest> = Vec::new();
    let mut i: usize = 0;
    while i < rule_ids.len()
        invariant
            i <= rule_ids@.len(),
            want == rule_ids@.map_values(
                |id: u64|
                    ApiRequestView {
                        method: Method::Delete,
                        path: rule_path(group_id@, id),
                        body: None,
                    },
            ),
            reqs.deep_view() == want.take(i as int),
        decreases rule_ids.len() - i,
    {
        let ghost before = reqs.deep_view();
        reqs.push(delete_firewall_rule(group_id, rule_ids[i]));
        assert(reqs.deep_view() =~= before.push(want[i as int]));
        assert(want.take(i + 1) =~= want.take(i as int).push(want[i as int]));
        i = i + 1;
    }
    assert(want.take(rule_ids@.len() as int) =~= want);
    reqs
}

// ---------------------------------------------------------------------
// Printed texts
// ---------------------------------------------------------------------

/// Everything about a request that a human needs to visually verify it
/// before it goes out: method, URL, JSON body, and an equivalent curl
/// command that can be copy-pasted and run by hand.
pub open spec fn request_report_text(
    method: Seq<char>,
    url: Seq<char>,
    body: Option<Seq<char>>,
) -> Seq<char> {
    let head = "---\n"@ + method + " "@ + url + "\n"@;
    let shown = match body {
        Some(b) => head + "Body:\n"@ + b + "\n"@,
        None => head,
    };
    shown + "\nEquivalent curl:\n"@ + curl_text(url, method, body) + "\n---\n\n"@
}

/// The text printed before a request is sent; `rendered_body` is the body
/// as pretty-printed JSON, shown only when the request has a body.
pub fn request_report(req: &ApiRequest, base_url: &str, rendered_body: &str) -> (t: String)
    ensures
        t@ == request_report_text(
            method_text(req.method),
            base_url@ + req.path@,
            if req.body is Some {
                Some(rendered_body@)
            } else {
                None
            },
        ),
{
    let url = req.url(base_url);
    let mut t = string_from("---\n");
    push_str(&mut t, req.method.as_str());
    push_str(&mut t, " ");
    push_str(&mut t, url.as_str());
    push_str(&mut t, "\n");
    if req.body.is_some() {
        push_str(&mut t, "Body:\n");
        push_str(&mut t, rendered_body);
        push_str(&mut t, "\n");
    }
    push_str(&mut t, "\nEquivalent curl:\n");
    let curl = req.to_curl(base_url, rendered_body);
    push_str(&mut t, curl.as_str());
    push_str(&mut t, "\n---\n\n");
    assert(t@ =~= request_report_text(
        method_text(req.method),
        base_url@ + req.path@,
        if req.body is Some {
            Some(rendered_body@)
        } else {
            None
        },
    ));
    t
}

/// The line listing a firewall group.
pub open spec fn group_line_text(g: FirewallGroupView) -> Seq<char> {
    "id="@ + pad_right(g.id, 10) + " description="@ + pad_right(g.description, 30)
        + " instances="@ + pad_right(int_text(g.instance_count as int), 4) + " rules="@ + int_text(
        g.rule_count as int,
    ) + "/"@ + int_text(g.max_rule_count as int) + " created="@ + g.date_created
}

/// The line listing a firewall group.
pub fn group_line(g: &FirewallGroup) -> (t: String)
    ensures
        t@ == group_line_text(g@),
{
    let mut t = string_from("id=");
    push_padded(&mut t, g.id.as_str(), 10);
    push_str(&mut t, " description=");
    push_padded(&mut t, g.description.as_str(), 30);
    push_str(&mut t, " instances=");
    let mut n = String::new();
    push_int(&mut n, g.instance_count);
    push_padded(&mut t, n.as_str(), 4);
    push_str(&mut t, " rules=");
    push_int(&mut t, g.rule_count);
    push_str(&mut t, "/");
    push_int(&mut t, g.max_rule_count);
    push_str(&mut t, " created=");
    push_str(&mut t, g.date_created.as_str());
    assert(n@ =~= int_text(g.instance_count as int));
    assert(t@ =~= group_line_text(g@));
    t
}

/// The line listing a firewall rule; an empty source shows as `-`. The
/// family and protocol names are not padded (their `Display` writes them
/// whole).
pub open spec fn rule_line_text(r: FirewallRuleView) -> Seq<char> {
    let source = if r.source.len() == 0 {
        "-"@
    } else {
        r.source
    };
    "id="@ + pad_right(dec_text(r.id as nat), 8) + " action="@ + pad_right(r.action, 8)
        + " type="@ + ip_type_text(r.ip_type) + " proto="@ + protocol_text(r.protocol)
        + " port="@ + pad_right(r.port, 10) + " subnet="@ + r.subnet + "/"@ + pad_right(
        int_text(r.subnet_size as int),
        3,
    ) + " source="@ + pad_right(source, 10) + " notes="@ + r.notes
}

/// How a request report is laid out: a `---` line, the method and URL, then,
/// for a request with a body, a `Body:` line followed by the rendered body,
/// then an empty line, the equivalent curl command, and a closing `---`.
pub proof fn lemma_request_report_layout(method: Seq<char>, url: Seq<char>, body: Seq<char>)
    ensures
        request_report_text(method, url, Some(body)) == "---\n"@ + method + " "@ + url
            + "\nBody:\n"@ + body + "\n\nEquivalent curl:\n"@ + curl_text(url, method, Some(body))
            + "\n---\n\n"@,
        request_report_text(method, url, None) == "---\n"@ + method + " "@ + url
            + "\n\nEquivalent curl:\n"@ + curl_text(url, method, None) + "\n---\n\n"@,
{
    reveal_strlit("\n");
    reveal_strlit("Body:\n");
    reveal_strlit("\nBody:\n");
    reveal_strlit("\nEquivalent curl:\n");
    reveal_strlit("\n\nEquivalent curl:\n");
    assert(request_report_text(method, url, Some(body)) =~= "---\n"@ + method + " "@ + url
        + "\nBody:\n"@ + body + "\n\nEquivalent curl:\n"@ + curl_text(url, method, Some(body))
        + "\n---\n\n"@);
    assert(request_report_text(method, url, None) =~= "---\n"@ + method + " "@ + url
        + "\n\nEquivalent curl:\n"@ + curl_text(url, method, None) + "\n---\n\n"@);
}

/// A rule line ends with its source column and notes: the source padded to
/// ten characters when the rule has one, `-` padded to ten when it has
/// none.
pub proof fn lemma_rule_line_source_column(r: FirewallRuleView)
    ensures
        ({
            let line = rule_line_text(r);
            let tail = " source="@ + pad_right(r.source, 10) + " notes="@ + r.notes;
            r.source.len() > 0 ==> line.len() >= tail.len() && line.subrange(
                line.len() - tail.len(),
                line.len() as int,
            ) == tail
        }),
        ({
            let line = rule_line_text(r);
            let tail = " source=-          notes="@ + r.notes;
            r.source.len() == 0 ==> line.len() >= tail.len() && line.subrange(
                line.len() - tail.len(),
                line.len() as int,
            ) == tail
        }),
{
    reveal_strlit("-");
    reveal_strlit(" source=");
    reveal_strlit(" notes=");
    reveal_strlit(" source=-          notes=");
    let line = rule_line_text(r);
    let head = "id="@ + pad_right(dec_text(r.id as nat), 8) + " action="@ + pad_right(r.action, 8)
        + " type="@ + ip_type_text(r.ip_type) + " proto="@ + protocol_text(r.protocol)
        + " port="@ + pad_right(r.port, 10) + " subnet="@ + r.subnet + "/"@ + pad_right(
        int_text(r.subnet_size as int),
        3,
    );
    if r.source.len() == 0 {
        let tail = " source="@ + pad_right("-"@, 10) + " notes="@ + r.notes;
        assert(line =~= head + tail);
        assert(line.subrange(head.len() as int, line.len() as int) =~= tail);
        assert(" source=-          notes="@ + r.notes =~= tail);
    } else {
        let tail = " source="@ + pad_right(r.source, 10) + " notes="@ + r.notes;
        assert(line =~= head + tail);
        assert(line.subrange(head.len() as int, line.len() as int) =~= tail);
    }
}

/// The line listing a firewall rule.
pub fn rule_line(r: &FirewallRule) -> (t: String)
    ensures
        t@ == rule_line_text(r@),
{
    proof {
        reveal_strlit("-");
    }
    let mut t = string_from("id=");
    let mut id = String::new();
    push_dec(&mut id, r.id as u128);
    push_padded(&mut t, id.as_str(), 8);
    push_str(&mut t, " action=");
    push_padded(&mut t, r.action.as_str(), 8);
    push_str(&mut t, " type=");
    let ty = r.ip_type.to_string();
    push_str(&mut t, ty.as_str());
    push_str(&mut t, " proto=");
    let proto = r.protocol.to_string();
    push_str(&mut t, proto.as_str());
    push_str(&mut t, " port=");
    push_padded(&mut t, r.port.as_str(), 10);
    push_str(&mut t, " subnet=");
    push_str(&mut t, r.subnet.as_str());
    push_str(&mut t, "/");
    let mut size = String::new();
    push_int(&mut size, r.subnet_size);
    push_padded(&mut t, size.as_str(), 3);
    push_str(&mut t, " source=");
    if r.source.as_str().is_empty() {
        push_padded(&mut t, "-", 10);
    } else {
        push_padded(&mut t, r.source.as_str(), 10);
    }
    push_str(&mut t, " notes=");
    push_str(&mut t, r.notes.as_str());
    assert(id@ =~= dec_text(r.id as nat));
    assert(size@ =~= int_text(r.subnet_size as int));
    assert(t@ =~= rule_line_text(r@));
    t
}

/// The lines reporting the detected addresses.
pub open spec fn detected_report_text(ips: DetectedIps) -> Seq<char> {
    let v4 = match ips.ipv4 {
        Some(a) => "IPv4: "@ + ipv4_text(a) + "\n"@,
        None => "IPv4: (not detected)\n"@,
    };
    let v6 = match ips.ipv6 {
        Some(a) => "IPv6: "@ + ipv6_text(a) + "\n"@,
        None => "IPv6: (none / not detected)\n"@,
    };
    v4 + v6
}

/// The lines reporting the detected addresses.
pub fn detected_report(ips: &DetectedIps) -> (t: String)
    ensures
        t@ == detected_report_text(*ips),
{
    let mut t = String::new();
    match ips.ipv4 {
        Some(a) => {
            push_str(&mut t, "IPv4: ");
            let s = ipv4_to_string(a);
            push_str(&mut t, s.as_str());
            push_str(&mut t, "\n");
        },
        None => push_str(&mut t, "IPv4: (not detected)\n"),
    }
    match ips.ipv6 {
        Some(a) => {
            push_str(&mut t, "IPv6: ");
            let s = ipv6_to_string(a);
            push_str(&mut t, s.as_str());
            push_str(&mut t, "\n");
        },
        None => push_str(&mut t, "IPv6: (none / not detected)\n"),
    }
    assert(t@ =~= detected_report_text(*ips));
    t
}

} // verus!
