//! The speaker daemon's decisions: which sessions it follows, which gateway
//! events it acts on, which replies it speaks (each reply once), and which
//! queued speech has gone stale.
use vstd::prelude::*;
use crate::text::{
    blank, chars_of, contains, contains_chars, equal_chars, is_blank, lower, lower_chars,
    starts_with, starts_with_chars, trim, trimmed_chars,
};

verus! {

/// The latest assistant reply of a session, with the fingerprint that tells
/// one reply from another.
#[derive(Debug, Clone)]
pub struct AssistantReply {
    pub text: String,
    pub fingerprint: String,
}

/// A session as the gateway lists it.
#[derive(Debug, Clone)]
pub struct SessionSummary {
    pub key: String,
    pub title: Option<String>,
}

/// What was last spoken for one session.
struct TrackedReply {
    fingerprint: String,
}

/// Remembers, for each session, the fingerprint of the reply last spoken.
pub struct ReplyTracker {
    entries: Vec<(String, TrackedReply)>,
    remembered: Ghost<Map<Seq<char>, Seq<char>>>,
}

/// The sessions the daemon has subscribed to.
pub struct SubscriptionSet {
    keys: Vec<String>,
}

/// What to do about one gateway event.
#[derive(Debug, Clone, PartialEq, Eq)]
pub enum EventAction {
    /// The session list changed: subscribe to the new sessions that match.
    RefreshSubscriptions,
    /// A followed session has a new message: fetch its latest reply.
    FetchLatestReply(String),
    /// A message event that names no session.
    SkipUnkeyed,
    /// A message event of a session that is not followed.
    SkipUnsubscribed(String),
    /// Any other event.
    Ignore,
}

/// What to do with a fetched reply.
#[derive(Debug, Clone, PartialEq, Eq)]
pub enum ReplyDecision {
    /// Speak this text.
    Speak(String),
    /// The session has no reply text yet.
    NoReplyYet,
    /// This reply was the last one spoken for the session.
    AlreadySpoken,
}

pub open spec fn option_view(o: Option<&str>) -> Option<Seq<char>> {
    match o {
        Some(s) => Some(s@),
        None => None,
    }
}

/// Whether a session passes the session filter: every session passes a
/// missing or blank filter; otherwise the trimmed filter must occur in the
/// session's key or title, ignoring ASCII case.
pub open spec fn filter_matches(
    filter: Option<Seq<char>>,
    key: Seq<char>,
    title: Option<Seq<char>>,
) -> bool {
    match filter {
        None => true,
        Some(f) => is_blank(f) || {
            let wanted = lower(trim(f));
            ||| contains(lower(key), wanted)
            ||| (match title {
                Some(t) => contains(lower(t), wanted),
                None => false,
            })
        },
    }
}

pub open spec fn title_view(session: SessionSummary) -> Option<Seq<char>> {
    match session.title {
        Some(t) => Some(t@),
        None => None,
    }
}

pub open spec fn lower_option(o: Option<Seq<char>>) -> Option<Seq<char>> {
    match o {
        Some(s) => Some(lower(s)),
        None => None,
    }
}

/// The session filter ignores ASCII letter case: lowercasing the filter, the
/// key or the title changes no decision.
pub proof fn lemma_filter_ignores_ascii_case(
    filter: Seq<char>,
    key: Seq<char>,
    title: Option<Seq<char>>,
)
    ensures
        filter_matches(Some(lower(filter)), key, title) == filter_matches(Some(filter), key, title),
        filter_matches(Some(filter), lower(key), title) == filter_matches(Some(filter), key, title),
        filter_matches(Some(filter), key, lower_option(title)) == filter_matches(
            Some(filter),
            key,
            title,
        ),
{
    crate::text::lemma_trim_lower(filter);
    crate::text::lemma_lower_idempotent(trim(filter));
    crate::text::lemma_lower_idempotent(key);
    if let Some(t) = title {
        crate::text::lemma_lower_idempotent(t);
    }
}

/// With a non-blank filter, a session passes exactly when the filter,
/// trimmed and ASCII-lowercased, occurs somewhere in its ASCII-lowercased key,
/// or somewhere in its ASCII-lowercased title: either one is enough, whatever
/// the other holds.
pub proof fn lemma_filter_by_substring(
    filter: Seq<char>,
    key: Seq<char>,
    title: Option<Seq<char>>,
)
    requires
        !is_blank(filter),
    ensures
        filter_matches(Some(filter), key, title) <==> {
            ||| exists|i: int|
                0 <= i && i + lower(trim(filter)).len() <= key.len() && #[trigger] lower(
                    key,
                ).subrange(i, i + lower(trim(filter)).len()) == lower(trim(filter))
            ||| (title is Some && exists|i: int|
                0 <= i && i + lower(trim(filter)).len() <= title->0.len() && #[trigger] lower(
                    title->0,
                ).subrange(i, i + lower(trim(filter)).len()) == lower(trim(filter)))
        },
{
    let wanted = lower(trim(filter));
    lemma_occurs_somewhere(key, wanted);
    if let Some(t) = title {
        lemma_occurs_somewhere(t, wanted);
    }
}

proof fn lemma_occurs_somewhere(hay: Seq<char>, wanted: Seq<char>)
    ensures
        contains(lower(hay), wanted) <==> exists|i: int|
            0 <= i && i + wanted.len() <= hay.len() && #[trigger] lower(hay).subrange(
                i,
                i + wanted.len(),
            ) == wanted,
{
    let lowered = lower(hay);
    assert(lowered.len() == hay.len());
    if contains(lowered, wanted) {
        let i = choose|i: int| crate::text::occurs_at(lowered, wanted, i);
        assert(lowered.subrange(i, i + wanted.len()) == wanted);
    }
    if exists|i: int|
        0 <= i && i + wanted.len() <= hay.len() && #[trigger] lowered.subrange(i, i + wanted.len())
            == wanted {
        let i = choose|i: int|
            0 <= i && i + wanted.len() <= hay.len() && #[trigger] lowered.subrange(
                i,
                i + wanted.len(),
            ) == wanted;
        assert(crate::text::occurs_at(lowered, wanted, i));
    }
}

/// A blank filter lets every session through, as no filter does.
pub proof fn lemma_blank_filter_is_no_filter(
    filter: Seq<char>,
    key: Seq<char>,
    title: Option<Seq<char>>,
)
    requires
        is_blank(filter),
    ensures
        filter_matches(Some(filter), key, title) == filter_matches(None, key, title),
{
}

/// Whether a reply with fingerprint `fingerprint` is spoken for `key`, given
/// what was last spoken: unless it is the one last spoken for that session.
pub open spec fn speaks(
    last_spoken: Map<Seq<char>, Seq<char>>,
    key: Seq<char>,
    fingerprint: Seq<char>,
) -> bool {
    !(last_spoken.contains_key(key) && last_spoken[key] == fingerprint)
}

/// What is remembered after a reply for `key` has been considered.
pub open spec fn remember(
    last_spoken: Map<Seq<char>, Seq<char>>,
    key: Seq<char>,
    fingerprint: Seq<char>,
) -> Map<Seq<char>, Seq<char>> {
    last_spoken.insert(key, fingerprint)
}

/// How the daemon routes an event, by its name and then by its session:
/// `sessions.changed` refreshes the subscriptions; an event whose name
/// starts with `session.message` concerns the session it names, which is
/// fetched where it is followed; every other event is ignored.
pub open spec fn routes_to(
    r: EventAction,
    name: Seq<char>,
    key: Option<Seq<char>>,
    followed: Set<Seq<char>>,
) -> bool {
    if name == "sessions.changed"@ {
        r == EventAction::RefreshSubscriptions
    } else if !starts_with(name, "session.message"@) {
        r == EventAction::Ignore
    } else {
        match key {
            None => r == EventAction::SkipUnkeyed,
            Some(k) => if followed.contains(k) {
                r matches EventAction::FetchLatestReply(s) && s@ == k
            } else {
                r matches EventAction::SkipUnsubscribed(s) && s@ == k
            },
        }
    }
}

/// Whether a session passes the session filter (see `filter_matches`).
pub fn session_matches_filter(filter: Option<&str>, session: &SessionSummary) -> (r: bool)
    ensures
        r == filter_matches(option_view(filter), session.key@, title_view(*session)),
{
    let f = match filter {
        None => {
            return true;
        },
        Some(f) => f,
    };
    if blank(f) {
        return true;
    }
    let wanted = lower_chars(&trimmed_chars(f));
    if contains_chars(&lower_chars(&chars_of(session.key.as_str())), &wanted) {
        return true;
    }
    match &session.title {
        Some(title) => contains_chars(&lower_chars(&chars_of(title.as_str())), &wanted),
        None => false,
    }
}

impl View for ReplyTracker {
    type V = Map<Seq<char>, Seq<char>>;

    /// For each session, the fingerprint of the reply last spoken.
    closed spec fn view(&self) -> Map<Seq<char>, Seq<char>> {
        self.remembered@
    }
}

impl ReplyTracker {
    /// The tracker's internal consistency: one entry per session, and the
    /// entries are what is remembered.
    pub closed spec fn wf(&self) -> bool {
        &&& forall|i: int, j: int|
            0 <= i < j < self.entries.len() ==> #[trigger] self.entries@[i].0@
                != #[trigger] self.entries@[j].0@
        &&& forall|i: int|
            0 <= i < self.entries.len() ==> {
                &&& #[trigger] self.remembered@.contains_key(self.entries@[i].0@)
                &&& self.remembered@[self.entries@[i].0@] == self.entries@[i].1.fingerprint@
            }
        &&& forall|k: Seq<char>|
            #[trigger] self.remembered@.contains_key(k) ==> exists|i: int|
                0 <= i < self.entries.len() && #[trigger] self.entries@[i].0@ == k
    }

    /// A tracker that has spoken nothing. Replies are told apart by their
    /// fingerprint alone, so the deduplication window plays no part.
    pub fn new(_dedupe_window: std::time::Duration) -> (r: Self)
        ensures
            r.wf(),
            r@ == Map::<Seq<char>, Seq<char>>::empty(),
    {
        ReplyTracker { entries: Vec::new(), remembered: Ghost(Map::empty()) }
    }

    /// Whether to speak `reply` for the session `session_key`: unless its
    /// fingerprint is the one last spoken for that session. Afterwards the
    /// reply's fingerprint is the one remembered for the session.
    pub fn should_speak(&mut self, session_key: &str, reply: &AssistantReply) -> (r: bool)
        requires
            old(self).wf(),
        ensures
            final(self).wf(),
            r == speaks(old(self)@, session_key@, reply.fingerprint@),
            final(self)@ == remember(old(self)@, session_key@, reply.fingerprint@),
    {
        let key = String::from_str(session_key);
        let n = self.entries.len();
        let mut i: usize = 0;
        while i < n && !(self.entries[i].0 == key)
            invariant
                n == self.entries.len(),
                i <= n,
                forall|j: int| 0 <= j < i ==> self.entries@[j].0@ != key@,
            decreases n - i,
        {
            i = i + 1;
        }
        let ghost old_map = self.remembered@;
        if i < n {
            if self.entries[i].1.fingerprint == reply.fingerprint {
                assert(remember(old_map, key@, reply.fingerprint@) =~= old_map);
                return false;
            }
            let tracked_reply = TrackedReply { fingerprint: reply.fingerprint.clone() };
            self.entries.set(i, (key, tracked_reply));
        } else {
            proof {
                assert(!old_map.contains_key(key@));
            }
            let tracked_reply = TrackedReply { fingerprint: reply.fingerprint.clone() };
            self.entries.push((key, tracked_reply));
        }
        self.remembered = Ghost(old_map.insert(session_key@, reply.fingerprint@));
        proof {
            let new_map = self.remembered@;
            assert forall|k: Seq<char>| #[trigger] new_map.contains_key(k) implies exists|j: int|
                0 <= j < self.entries.len() && #[trigger] self.entries@[j].0@ == k by {
                if k == session_key@ {
                    assert(self.entries@[i as int].0@ == k);
                } else {
                    let j = choose|j: int|
                        0 <= j < old(self).entries.len() && #[trigger] old(self).entries@[j].0@
                            == k;
                    assert(self.entries@[j].0@ == k);
                }
            }
        }
        true
    }
}

/// Considers a fetched reply: nothing to speak where there is none yet;
/// otherwise the reply is spoken unless it is the one last spoken for the
/// session, and the tracker remembers it.
pub fn decide_reply(
    tracker: &mut ReplyTracker,
    session_key: &str,
    reply: Option<AssistantReply>,
) -> (r: ReplyDecision)
    requires
        old(tracker).wf(),
    ensures
        final(tracker).wf(),
        match reply {
            None => r == ReplyDecision::NoReplyYet && final(tracker)@ == old(tracker)@,
            Some(rep) => {
                &&& final(tracker)@ == remember(old(tracker)@, session_key@, rep.fingerprint@)
                &&& speaks(old(tracker)@, session_key@, rep.fingerprint@) ==> (r matches ReplyDecision::Speak(t) && t == rep.text)
                &&& !speaks(old(tracker)@, session_key@, rep.fingerprint@) ==> r == ReplyDecision::AlreadySpoken
            },
        },
{
    match reply {
        None => ReplyDecision::NoReplyYet,
        Some(rep) => {
            if tracker.should_speak(session_key, &rep) {
                ReplyDecision::Speak(rep.text)
            } else {
                ReplyDecision::AlreadySpoken
            }
        },
    }
}

/// A reply once considered is never spoken again while it stays the last
/// one of its session.
pub proof fn lemma_never_spoken_twice(
    last_spoken: Map<Seq<char>, Seq<char>>,
    key: Seq<char>,
    fingerprint: Seq<char>,
)
    ensures
        !speaks(remember(last_spoken, key, fingerprint), key, fingerprint),
{
}

/// A reply with a new fingerprint is spoken, whatever its text.
pub proof fn lemma_new_fingerprint_speaks(
    last_spoken: Map<Seq<char>, Seq<char>>,
    key: Seq<char>,
    first: Seq<char>,
    second: Seq<char>,
)
    requires
        first != second,
    ensures
        speaks(remember(last_spoken, key, first), key, second),
{
}

/// What one session's replies do leaves every other session's decisions as
/// they were.
pub proof fn lemma_sessions_independent(
    last_spoken: Map<Seq<char>, Seq<char>>,
    key: Seq<char>,
    fingerprint: Seq<char>,
    other_key: Seq<char>,
    other_fingerprint: Seq<char>,
)
    requires
        key != other_key,
    ensures
        speaks(remember(last_spoken, key, fingerprint), other_key, other_fingerprint) == speaks(
            last_spoken,
            other_key,
            other_fingerprint,
        ),
{
}

/// A reply that is not spoken leaves the tracker as it was.
pub proof fn lemma_refused_reply_changes_nothing(
    last_spoken: Map<Seq<char>, Seq<char>>,
    key: Seq<char>,
    fingerprint: Seq<char>,
)
    requires
        !speaks(last_spoken, key, fingerprint),
    ensures
        remember(last_spoken, key, fingerprint) == last_spoken,
{
    assert(remember(last_spoken, key, fingerprint) =~= last_spoken);
}

/// A fresh tracker speaks every reply.
pub proof fn lemma_fresh_tracker_speaks(key: Seq<char>, fingerprint: Seq<char>)
    ensures
        speaks(Map::empty(), key, fingerprint),
{
}

/// The speech requests a run makes: the replies considered, in order, each
/// as its session key and fingerprint, starting from what `last_spoken`
/// remembers; a reply gives a request where it is spoken.
pub open spec fn speech_requests(
    last_spoken: Map<Seq<char>, Seq<char>>,
    replies: Seq<(Seq<char>, Seq<char>)>,
) -> Seq<(Seq<char>, Seq<char>)>
    decreases replies.len(),
{
    if replies.len() == 0 {
        Seq::empty()
    } else {
        let (key, fingerprint) = replies[0];
        let rest = speech_requests(
            remember(last_spoken, key, fingerprint),
            replies.drop_first(),
        );
        if speaks(last_spoken, key, fingerprint) {
            seq![(key, fingerprint)] + rest
        } else {
            rest
        }
    }
}

/// Requests `i` and `j` are successive ones of the same session: no request
/// of that session comes between them.
pub open spec fn successive_for_session(
    requests: Seq<(Seq<char>, Seq<char>)>,
    i: int,
    j: int,
) -> bool {
    &&& 0 <= i < j < requests.len()
    &&& requests[i].0 == requests[j].0
    &&& forall|t: int| i < t < j ==> requests[t].0 != requests[i].0
}

/// Request `j` is the first of its session.
pub open spec fn first_for_session(requests: Seq<(Seq<char>, Seq<char>)>, j: int) -> bool {
    &&& 0 <= j < requests.len()
    &&& forall|t: int| 0 <= t < j ==> requests[t].0 != requests[j].0
}

/// Over a whole run, no two successive speech requests of a session carry
/// the same fingerprint: a reply is voiced at most once while it stays the
/// latest one of its session. The first request of a session also differs
/// from what was remembered for it when the run began.
pub proof fn lemma_successive_requests_differ(
    last_spoken: Map<Seq<char>, Seq<char>>,
    replies: Seq<(Seq<char>, Seq<char>)>,
)
    ensures
        forall|i: int, j: int|
            #[trigger] successive_for_session(speech_requests(last_spoken, replies), i, j)
                ==> speech_requests(last_spoken, replies)[i].1 != speech_requests(
                last_spoken,
                replies,
            )[j].1,
        forall|j: int|
            #[trigger] first_for_session(speech_requests(last_spoken, replies), j)
                && last_spoken.contains_key(speech_requests(last_spoken, replies)[j].0)
                ==> speech_requests(last_spoken, replies)[j].1 != last_spoken[speech_requests(
                last_spoken,
                replies,
            )[j].0],
    decreases replies.len(),
{
    let run = speech_requests(last_spoken, replies);
    if replies.len() > 0 {
        let (key, fingerprint) = replies[0];
        let next = remember(last_spoken, key, fingerprint);
        let rest = speech_requests(next, replies.drop_first());
        lemma_successive_requests_differ(next, replies.drop_first());
        let h: int = if speaks(last_spoken, key, fingerprint) {
            1
        } else {
            0
        };
        assert(run.len() == rest.len() + h);
        assert forall|t: int| h <= t < run.len() implies run[t] == rest[t - h] by {}
        assert(h == 1 ==> run[0] == (key, fingerprint));
        assert forall|i: int, j: int| #[trigger]
            successive_for_session(run, i, j) implies run[i].1 != run[j].1 by {
            if i >= h {
                assert(successive_for_session(rest, i - h, j - h)) by {
                    assert forall|t: int| i - h < t < j - h implies #[trigger] rest[t].0 != rest[i - h].0 by {
                        assert(run[t + h] == rest[t]);
                    }
                }
            } else {
                assert(first_for_session(rest, j - 1)) by {
                    assert forall|t: int| 0 <= t < j - 1 implies #[trigger] rest[t].0 != rest[j - 1].0 by {
                        assert(run[t + 1] == rest[t]);
                    }
                }
                assert(next.contains_key(rest[j - 1].0));
            }
        }
        assert forall|j: int| #[trigger]
            first_for_session(run, j) && last_spoken.contains_key(run[j].0) implies run[j].1
            != last_spoken[run[j].0] by {
            if j >= h {
                let k = run[j].0;
                assert(first_for_session(rest, j - h)) by {
                    assert forall|t: int| 0 <= t < j - h implies #[trigger] rest[t].0 != rest[j - h].0 by {
                        assert(run[t + h] == rest[t]);
                    }
                }
                if h == 1 {
                    assert(run[0].0 != k);
                    assert(next.contains_key(k) && next[k] == last_spoken[k]);
                } else {
                    if k == key {
                        assert(next =~= last_spoken);
                    } else {
                        assert(next.contains_key(k) && next[k] == last_spoken[k]);
                    }
                }
            }
        }
    }
}

impl View for SubscriptionSet {
    type V = Set<Seq<char>>;

    /// The keys of the followed sessions.
    closed spec fn view(&self) -> Set<Seq<char>> {
        Set::new(|k: Seq<char>| exists|i: int| 0 <= i < self.keys.len() && #[trigger] self.keys@[i]@ == k)
    }
}

impl SubscriptionSet {
    /// No session followed.
    pub fn new() -> (r: Self)
        ensures
            r@ == Set::<Seq<char>>::empty(),
    {
        let r = SubscriptionSet { keys: Vec::new() };
        assert(r@ =~= Set::<Seq<char>>::empty());
        r
    }

    /// Whether the session `key` is followed.
    pub fn contains(&self, key: &str) -> (r: bool)
        ensures
            r == self@.contains(key@),
    {
        let wanted = String::from_str(key);
        let mut i: usize = 0;
        while i < self.keys.len()
            invariant
                i <= self.keys.len(),
                wanted@ == key@,
                forall|j: int| 0 <= j < i ==> self.keys@[j]@ != key@,
            decreases self.keys.len() - i,
        {
            if self.keys[i] == wanted {
                assert(self.keys@[i as int]@ == key@);
                return true;
            }
            i = i + 1;
        }
        false
    }

    /// Considers a listed session: it is followed from now on where it passes
    /// the filter. Returns whether the daemon has to subscribe to it, that is
    /// whether it passes and was not followed before.
    pub fn claim(&mut self, filter: Option<&str>, session: &SessionSummary) -> (r: bool)
        ensures
            r == claims(old(self)@, option_view(filter), session.key@, title_view(*session)),
            final(self)@ == after_claim(
                old(self)@,
                option_view(filter),
                session.key@,
                title_view(*session),
            ),
    {
        if !session_matches_filter(filter, session) {
            return false;
        }
        if self.contains(session.key.as_str()) {
            assert(old(self)@.insert(session.key@) =~= old(self)@);
            return false;
        }
        let ghost old_view = self@;
        self.keys.push(session.key.clone());
        assert(self@ =~= old_view.insert(session.key@)) by {
            assert(self.keys@[self.keys.len() - 1]@ == session.key@);
            assert forall|k: Seq<char>| old_view.contains(k) implies self@.contains(k) by {
                let j = choose|j: int| 0 <= j < old(self).keys.len() && #[trigger] old(self).keys@[j]@ == k;
                assert(self.keys@[j]@ == k);
            }
            assert forall|k: Seq<char>| self@.contains(k) implies old_view.insert(session.key@).contains(k) by {
                let j = choose|j: int| 0 <= j < self.keys.len() && #[trigger] self.keys@[j]@ == k;
                if j < old(self).keys.len() {
                    assert(old(self).keys@[j]@ == k);
                }
            }
        }
        true
    }
}

/// Whether considering a listed session makes the daemon subscribe to it:
/// it passes the filter and is not followed yet.
pub open spec fn claims(
    followed: Set<Seq<char>>,
    filter: Option<Seq<char>>,
    key: Seq<char>,
    title: Option<Seq<char>>,
) -> bool {
    filter_matches(filter, key, title) && !followed.contains(key)
}

/// The followed sessions after considering a listed session: it is added
/// where it passes the filter.
pub open spec fn after_claim(
    followed: Set<Seq<char>>,
    filter: Option<Seq<char>>,
    key: Seq<char>,
    title: Option<Seq<char>>,
) -> Set<Seq<char>> {
    if filter_matches(filter, key, title) {
        followed.insert(key)
    } else {
        followed
    }
}

/// The daemon subscribes to each session at most once: a session considered
/// again after it was claimed is not claimed again.
pub proof fn lemma_claim_once(
    followed: Set<Seq<char>>,
    filter: Option<Seq<char>>,
    key: Seq<char>,
    title: Option<Seq<char>>,
)
    ensures
        !claims(after_claim(followed, filter, key, title), filter, key, title),
{
}

/// Considering sessions never drops one that is followed.
pub proof fn lemma_claim_keeps_followed(
    followed: Set<Seq<char>>,
    filter: Option<Seq<char>>,
    key: Seq<char>,
    title: Option<Seq<char>>,
)
    ensures
        followed.subset_of(after_claim(followed, filter, key, title)),
{
}

/// Routes a gateway event: a change of the session list refreshes the
/// subscriptions; a message event of a followed session fetches that
/// session's latest reply; other message events and other events are
/// skipped.
pub fn route_event(name: &str, session_key: Option<&str>, followed: &SubscriptionSet) -> (r:
    EventAction)
    ensures
        routes_to(r, name@, option_view(session_key), followed@),
{
    let name_chars = chars_of(name);
    if equal_chars(&name_chars, &chars_of("sessions.changed")) {
        return EventAction::RefreshSubscriptions;
    }
    if !starts_with_chars(&name_chars, &chars_of("session.message")) {
        return EventAction::Ignore;
    }
    match session_key {
        None => EventAction::SkipUnkeyed,
        Some(key) => {
            if followed.contains(key) {
                EventAction::FetchLatestReply(String::from_str(key))
            } else {
                EventAction::SkipUnsubscribed(String::from_str(key))
            }
        },
    }
}

/// Whether queued speech has gone stale and is skipped: where new replies
/// interrupt, speech is stale once a later one has been submitted.
pub fn is_stale_playback(interrupt_on_new_reply: bool, generation_id: u64, latest_generation: u64) -> (r: bool)
    ensures
        r == (interrupt_on_new_reply && generation_id != latest_generation),
{
    interrupt_on_new_reply && generation_id != latest_generation
}

/// The line that lists a session: its key, and its title after ` - ` where
/// it has a non-empty one.
pub open spec fn listed(session: SessionSummary) -> Seq<char> {
    match session.title {
        Some(t) => if t@.len() > 0 {
            session.key@ + " - "@ + t@
        } else {
            session.key@
        },
        None => session.key@,
    }
}

/// The line that lists a session (see `listed`).
pub fn session_line(session: &SessionSummary) -> (r: String)
    ensures
        r@ == listed(*session),
{
    match &session.title {
        Some(title) => {
            if title.as_str().is_empty() {
                session.key.clone()
            } else {
                session.key.clone().concat(" - ").concat(title.as_str())
            }
        },
        None => session.key.clone(),
    }
}

/// What the session listing prints: a line per session, or a note that
/// there is none.
pub fn session_listing(sessions: &Vec<SessionSummary>) -> (r: Vec<String>)
    ensures
        sessions.len() == 0 ==> r@.map_values(|s: String| s@) == seq!["No sessions found."@],
        sessions.len() > 0 ==> r.len() == sessions.len() && forall|i: int|
            0 <= i < sessions.len() ==> #[trigger] r@[i]@ == listed(sessions@[i]),
{
    let mut r: Vec<String> = Vec::new();
    if sessions.len() == 0 {
        r.push(String::from_str("No sessions found."));
        assert(r@.map_values(|s: String| s@) =~= seq!["No sessions found."@]);
        return r;
    }
    let mut i: usize = 0;
    while i < sessions.len()
        invariant
            i <= sessions.len(),
            r.len() == i,
            forall|j: int| 0 <= j < i ==> #[trigger] r@[j]@ == listed(sessions@[j]),
        decreases sessions.len() - i,
    {
        r.push(session_line(&sessions[i]));
        i = i + 1;
    }
    r
}

} // verus!
