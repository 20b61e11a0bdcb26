//! The sessions in the tray menu: which are shown, in which order, under which
//! label.

use vstd::prelude::*;

use crate::locale::NativeLocale;
use crate::text;
use crate::text::{chars_of, control, joined, same_text, shortened, words_of};

verus! {

/// Sessions at the top level of the tray menu.
pub const TOP_SESSION_LIMIT: usize = 5;

/// Sessions in the submenu of the tray menu.
pub const HISTORY_SESSION_LIMIT: usize = 20;

/// Characters of a session's label.
pub const SESSION_MENU_LABEL_LIMIT: usize = 96;

/// A session as the tray menu knows it.
#[derive(Clone, Debug)]
pub struct SessionMenuEntry {
    pub id: String,
    pub title: String,
    pub workspace: Option<String>,
    /// When the session last changed; later is larger.
    pub updated_at: u64,
    pub running: bool,
    /// The session finished and nobody has looked at it.
    pub completed: bool,
    /// What the session waits for: `approval`, `question` or `plan-review`.
    pub pending_interaction: Option<String>,
}

/// All sessions at one moment.
#[derive(Clone, Debug)]
pub struct SessionMenuSnapshot {
    pub revision: u64,
    pub ready: bool,
    pub sessions: Vec<SessionMenuEntry>,
}

impl Default for SessionMenuSnapshot {
    /// What is known before the backend reports its sessions.
    fn default() -> (snapshot: SessionMenuSnapshot)
        ensures
            snapshot.revision == 0,
            !snapshot.ready,
            snapshot.sessions@.len() == 0,
    {
        SessionMenuSnapshot { revision: 0, ready: false, sessions: Vec::new() }
    }
}

// ---------------------------------------------------------------------------
// Order
// ---------------------------------------------------------------------------

/// What a session is doing, from the most to the least urgent.
#[derive(Clone, Copy, Debug, PartialEq, Eq, Structural)]
pub enum SessionState {
    NeedsApproval,
    WaitsForAnswer,
    Running,
    Completed,
    Idle,
}

impl SessionState {
    /// How urgent a state is; lower numbers come first.
    pub open spec fn rank(self) -> u8 {
        match self {
            SessionState::NeedsApproval => 0,
            SessionState::WaitsForAnswer => 1,
            SessionState::Running => 2,
            SessionState::Completed => 3,
            SessionState::Idle => 4,
        }
    }

    fn urgency(self) -> (rank: u8)
        ensures
            rank == self.rank(),
    {
        match self {
            SessionState::NeedsApproval => 0,
            SessionState::WaitsForAnswer => 1,
            SessionState::Running => 2,
            SessionState::Completed => 3,
            SessionState::Idle => 4,
        }
    }
}

impl SessionMenuEntry {
    /// What the session is doing: what it waits for counts first, then whether it
    /// runs, then whether it finished.
    pub open spec fn state(self) -> SessionState {
        let pending = text::opt_view(self.pending_interaction);
        if pending == Some("approval"@) {
            SessionState::NeedsApproval
        } else if pending == Some("question"@) || pending == Some("plan-review"@) {
            SessionState::WaitsForAnswer
        } else if self.running {
            SessionState::Running
        } else if self.completed {
            SessionState::Completed
        } else {
            SessionState::Idle
        }
    }

    fn current_state(&self) -> (state: SessionState)
        ensures
            state == self.state(),
    {
        match &self.pending_interaction {
            Some(pending) => {
                if same_text(pending.as_str(), "approval") {
                    return SessionState::NeedsApproval;
                }
                if same_text(pending.as_str(), "question") || same_text(
                    pending.as_str(),
                    "plan-review",
                ) {
                    return SessionState::WaitsForAnswer;
                }
            },
            None => {},
        }
        if self.running {
            SessionState::Running
        } else if self.completed {
            SessionState::Completed
        } else {
            SessionState::Idle
        }
    }
}

/// An order of sessions.
#[derive(Clone, Copy, Debug, PartialEq, Eq, Structural)]
pub enum SessionOrder {
    /// The most urgent first, and among those the most recent.
    Priority,
    /// The most recent first.
    Recency,
}

impl SessionOrder {
    /// Whether a session has to stand before another one.
    pub open spec fn precedes(self, a: SessionMenuEntry, b: SessionMenuEntry) -> bool {
        match self {
            SessionOrder::Priority => a.state().rank() < b.state().rank() || (a.state().rank()
                == b.state().rank() && a.updated_at > b.updated_at),
            SessionOrder::Recency => a.updated_at > b.updated_at,
        }
    }

    fn stands_before(self, a: &SessionMenuEntry, b: &SessionMenuEntry) -> (before: bool)
        ensures
            before == self.precedes(*a, *b),
    {
        match self {
            SessionOrder::Priority => {
                let left = a.current_state().urgency();
                let right = b.current_state().urgency();
                left < right || (left == right && a.updated_at > b.updated_at)
            },
            SessionOrder::Recency => a.updated_at > b.updated_at,
        }
    }

    /// Some sessions in this order, with one more put behind all that it does not
    /// have to stand before.
    pub open spec fn with(self, sorted: Seq<SessionMenuEntry>, entry: SessionMenuEntry) -> Seq<
        SessionMenuEntry,
    >
        decreases sorted.len(),
    {
        if sorted.len() > 0 && self.precedes(entry, sorted.last()) {
            self.with(sorted.drop_last(), entry).push(sorted.last())
        } else {
            sorted.push(entry)
        }
    }

    /// Some sessions in this order; those that the order does not tell apart stay
    /// as they were.
    pub open spec fn arrange(self, sessions: Seq<SessionMenuEntry>) -> Seq<SessionMenuEntry>
        decreases sessions.len(),
    {
        if sessions.len() == 0 {
            Seq::empty()
        } else {
            self.with(self.arrange(sessions.drop_last()), sessions.last())
        }
    }
}

/// The sessions that some references refer to.
pub open spec fn referred(references: Seq<&SessionMenuEntry>) -> Seq<SessionMenuEntry> {
    references.map_values(|reference: &SessionMenuEntry| *reference)
}

fn insert_session<'a>(
    order: SessionOrder,
    sorted: &mut Vec<&'a SessionMenuEntry>,
    entry: &'a SessionMenuEntry,
)
    ensures
        referred(final(sorted)@) == order.with(referred(old(sorted)@), *entry),
{
    let ghost all = referred(sorted@);
    let ghost whole = order.with(all, *entry);
    let mut at: usize = sorted.len();
    proof {
        assert(all.take(at as int) == all);
        assert(all.skip(at as int) == Seq::<SessionMenuEntry>::empty());
        assert(whole + all.skip(at as int) == whole);
    }
    while at > 0 && order.stands_before(entry, sorted[at - 1])
        invariant
            at <= sorted@.len(),
            all == referred(sorted@),
            sorted@ == old(sorted)@,
            whole == order.with(all.take(at as int), *entry) + all.skip(at as int),
        decreases at,
    {
        proof {
            let head = all.take(at as int);
            let shorter = all.take(at - 1);
            assert(head.last() == *sorted@[at - 1]);
            assert(head.drop_last() == shorter);
            assert(order.with(head, *entry) == order.with(shorter, *entry).push(all[at - 1]));
            assert(order.with(shorter, *entry).push(all[at - 1]) + all.skip(at as int)
                == order.with(shorter, *entry) + all.skip(at - 1));
        }
        at = at - 1;
    }
    sorted.insert(at, entry);
    proof {
        let head = all.take(at as int);
        if at > 0 {
            assert(head.last() == *old(sorted)@[at - 1]);
        }
        assert(order.with(head, *entry) == head.push(*entry));
        assert(referred(sorted@) == head.push(*entry) + all.skip(at as int));
    }
}

fn arranged<'a>(order: SessionOrder, sessions: &Vec<&'a SessionMenuEntry>) -> (sorted: Vec<
    &'a SessionMenuEntry,
>)
    ensures
        referred(sorted@) == order.arrange(referred(sessions@)),
{
    let mut sorted: Vec<&'a SessionMenuEntry> = Vec::new();
    let ghost all = referred(sessions@);
    let mut i: usize = 0;
    proof {
        assert(all.take(0) == Seq::<SessionMenuEntry>::empty());
        assert(referred(sorted@) == Seq::<SessionMenuEntry>::empty());
    }
    while i < sessions.len()
        invariant
            i <= sessions@.len(),
            all == referred(sessions@),
            referred(sorted@) == order.arrange(all.take(i as int)),
        decreases sessions@.len() - i,
    {
        proof {
            assert(all.take(i + 1).drop_last() == all.take(i as int));
            assert(all.take(i + 1).last() == *sessions@[i as int]);
        }
        insert_session(order, &mut sorted, sessions[i]);
        i = i + 1;
    }
    assert(all.take(i as int) == all);
    sorted
}

/// At most `limit` of some sessions: the first ones.
pub open spec fn first(sessions: Seq<SessionMenuEntry>, limit: usize) -> Seq<SessionMenuEntry> {
    if sessions.len() > limit {
        sessions.take(limit as int)
    } else {
        sessions
    }
}

/// What is left of some sessions without the first `limit`.
pub open spec fn beyond(sessions: Seq<SessionMenuEntry>, limit: usize) -> Seq<SessionMenuEntry> {
    if sessions.len() > limit {
        sessions.skip(limit as int)
    } else {
        Seq::empty()
    }
}

/// The sessions at the top level: the most urgent ones.
pub open spec fn top_sessions(sessions: Seq<SessionMenuEntry>) -> Seq<SessionMenuEntry> {
    first(SessionOrder::Priority.arrange(sessions), TOP_SESSION_LIMIT)
}

/// The sessions that are not at the top level, by urgency.
pub open spec fn other_sessions(sessions: Seq<SessionMenuEntry>) -> Seq<SessionMenuEntry> {
    beyond(SessionOrder::Priority.arrange(sessions), TOP_SESSION_LIMIT)
}

/// The sessions in the submenu: the most recent of those that are not at the top
/// level.
pub open spec fn history_sessions(sessions: Seq<SessionMenuEntry>) -> Seq<SessionMenuEntry> {
    first(SessionOrder::Recency.arrange(other_sessions(sessions)), HISTORY_SESSION_LIMIT)
}

fn cut<'a>(sessions: &Vec<&'a SessionMenuEntry>, from: usize, limit: usize) -> (part: Vec<
    &'a SessionMenuEntry,
>)
    ensures
        referred(part@) == first(beyond(referred(sessions@), from), limit),
{
    let mut part: Vec<&'a SessionMenuEntry> = Vec::new();
    let ghost rest = beyond(referred(sessions@), from);
    let mut i: usize = from;
    proof {
        assert(referred(part@) == rest.take(0));
    }
    while i < sessions.len() && part.len() < limit
        invariant
            from <= i,
            i <= sessions@.len() || i == from,
            part@.len() == i - from,
            part@.len() <= limit,
            rest == beyond(referred(sessions@), from),
            referred(part@) == rest.take(i - from),
        decreases sessions@.len() - i,
    {
        let ghost before = part@;
        part.push(sessions[i]);
        proof {
            assert(referred(part@) == referred(before).push(rest[i - from]));
            assert(rest.take(i + 1 - from) == rest.take(i - from).push(rest[i - from]));
        }
        i = i + 1;
    }
    assert(rest.take(i - from) == first(rest, limit));
    part
}

/// Chooses the sessions of the tray menu: the most urgent ones for the top level,
/// and the most recent of the others for the submenu.
pub fn select_sessions(sessions: &[SessionMenuEntry]) -> (selected: (
    Vec<&SessionMenuEntry>,
    Vec<&SessionMenuEntry>,
))
    ensures
        referred(selected.0@) == top_sessions(sessions@),
        referred(selected.1@) == history_sessions(sessions@),
{
    let mut all: Vec<&SessionMenuEntry> = Vec::new();
    let mut i: usize = 0;
    while i < sessions.len()
        invariant
            i <= sessions@.len(),
            referred(all@) == sessions@.take(i as int),
        decreases sessions@.len() - i,
    {
        let ghost before = all@;
        all.push(&sessions[i]);
        assert(referred(all@) == referred(before).push(sessions@[i as int]));
        i = i + 1;
    }
    assert(sessions@.take(i as int) == sessions@);
    let ranked = arranged(SessionOrder::Priority, &all);
    let top = cut(&ranked, 0, TOP_SESSION_LIMIT);
    let others = cut(&ranked, TOP_SESSION_LIMIT, ranked.len());
    let recent = arranged(SessionOrder::Recency, &others);
    let history = cut(&recent, 0, HISTORY_SESSION_LIMIT);
    proof {
        assert(beyond(referred(ranked@), 0) == referred(ranked@));
        assert(beyond(referred(recent@), 0) == referred(recent@));
    }
    (top, history)
}

proof fn lemma_with(order: SessionOrder, sorted: Seq<SessionMenuEntry>, entry: SessionMenuEntry)
    ensures
        order.with(sorted, entry).len() == sorted.len() + 1,
        order.with(sorted, entry).to_multiset() == sorted.to_multiset().insert(entry),
    decreases sorted.len(),
{
    broadcast use vstd::seq_lib::group_to_multiset_ensures;

    if sorted.len() > 0 && order.precedes(entry, sorted.last()) {
        let init = sorted.drop_last();
        lemma_with(order, init, entry);
        assert(init.push(sorted.last()) == sorted);
        assert(order.with(sorted, entry).to_multiset() =~= sorted.to_multiset().insert(entry));
    }
}

/// Nothing stands after something that it has to precede.
pub open spec fn in_order(order: SessionOrder, sessions: Seq<SessionMenuEntry>) -> bool {
    forall|i: int, j: int|
        0 <= i < j < sessions.len() ==> !order.precedes(
            #[trigger] sessions[j],
            #[trigger] sessions[i],
        )
}

proof fn lemma_with_keeps_order(
    order: SessionOrder,
    sorted: Seq<SessionMenuEntry>,
    entry: SessionMenuEntry,
)
    requires
        in_order(order, sorted),
    ensures
        in_order(order, order.with(sorted, entry)),
        forall|i: int|
            0 <= i < order.with(sorted, entry).len() ==> (#[trigger] order.with(sorted, entry)[i]
                == entry || sorted.contains(order.with(sorted, entry)[i])),
    decreases sorted.len(),
{
    let whole = order.with(sorted, entry);
    if sorted.len() > 0 && order.precedes(entry, sorted.last()) {
        let init = sorted.drop_last();
        lemma_with_keeps_order(order, init, entry);
        let shorter = order.with(init, entry);
        assert(whole == shorter.push(sorted.last()));
        assert forall|i: int| 0 <= i < whole.len() implies (#[trigger] whole[i] == entry
            || sorted.contains(whole[i])) by {
            if i < shorter.len() {
                assert(shorter[i] == entry || init.contains(shorter[i]));
                if init.contains(shorter[i]) {
                    let k = init.index_of(shorter[i]);
                    assert(sorted[k] == shorter[i]);
                }
            } else {
                assert(sorted[sorted.len() - 1] == whole[i]);
            }
        }
        assert forall|i: int, j: int| 0 <= i < j < whole.len() implies !order.precedes(
            #[trigger] whole[j],
            #[trigger] whole[i],
        ) by {
            if j == whole.len() - 1 {
                assert(shorter[i] == entry || init.contains(shorter[i]));
                if init.contains(shorter[i]) && shorter[i] != entry {
                    let k = init.index_of(shorter[i]);
                    assert(sorted[k] == shorter[i]);
                    assert(!order.precedes(sorted[sorted.len() - 1], sorted[k]));
                }
            } else {
                assert(!order.precedes(shorter[j], shorter[i]));
            }
        }
    } else {
        assert forall|i: int, j: int| 0 <= i < j < whole.len() implies !order.precedes(
            #[trigger] whole[j],
            #[trigger] whole[i],
        ) by {
            if j == whole.len() - 1 {
                let last = sorted[sorted.len() - 1];
                assert(!order.precedes(entry, last));
                assert(i < sorted.len() - 1 ==> !order.precedes(last, sorted[i]));
            } else {
                assert(!order.precedes(sorted[j], sorted[i]));
            }
        }
        assert forall|i: int| 0 <= i < whole.len() implies (#[trigger] whole[i] == entry
            || sorted.contains(whole[i])) by {
            if i < sorted.len() {
                assert(sorted[i] == whole[i]);
            }
        }
    }
}

/// Arranging sessions loses none and adds none, and puts them in order.
pub proof fn law_arranging_sorts(order: SessionOrder, sessions: Seq<SessionMenuEntry>)
    ensures
        order.arrange(sessions).len() == sessions.len(),
        order.arrange(sessions).to_multiset() == sessions.to_multiset(),
        in_order(order, order.arrange(sessions)),
    decreases sessions.len(),
{
    broadcast use vstd::seq_lib::group_to_multiset_ensures;

    if sessions.len() > 0 {
        let init = sessions.drop_last();
        law_arranging_sorts(order, init);
        lemma_with(order, order.arrange(init), sessions.last());
        lemma_with_keeps_order(order, order.arrange(init), sessions.last());
        assert(init.push(sessions.last()) == sessions);
        assert(order.arrange(sessions).to_multiset() =~= sessions.to_multiset());
    } else {
        assert(sessions == Seq::<SessionMenuEntry>::empty());
    }
}

/// The order does not tell two sessions apart.
pub open spec fn tied(order: SessionOrder, a: SessionMenuEntry, b: SessionMenuEntry) -> bool {
    !order.precedes(a, b) && !order.precedes(b, a)
}

proof fn lemma_with_is_stable(
    order: SessionOrder,
    sorted: Seq<SessionMenuEntry>,
    entry: SessionMenuEntry,
    probe: SessionMenuEntry,
)
    ensures
        order.with(sorted, entry).filter(|other: SessionMenuEntry| tied(order, other, probe))
            == sorted.push(entry).filter(|other: SessionMenuEntry| tied(order, other, probe)),
    decreases sorted.len(),
{
    reveal(Seq::filter);
    let ties = |other: SessionMenuEntry| tied(order, other, probe);
    if sorted.len() > 0 && order.precedes(entry, sorted.last()) {
        let init = sorted.drop_last();
        let last = sorted.last();
        lemma_with_is_stable(order, init, entry, probe);
        let shorter = order.with(init, entry);
        assert(shorter.push(last).drop_last() == shorter);
        assert(init.push(entry).drop_last() == init);
        assert(sorted.push(entry).drop_last() == sorted);
        let kept = init.filter(ties);
        assert(!(ties(entry) && ties(last)));
        assert(sorted.filter(ties) == if ties(last) {
            kept.push(last)
        } else {
            kept
        });
        assert(init.push(entry).filter(ties) == if ties(entry) {
            kept.push(entry)
        } else {
            kept
        });
        assert(order.with(sorted, entry) == shorter.push(last));
        assert(shorter.push(last).filter(ties) == if ties(last) {
            shorter.filter(ties).push(last)
        } else {
            shorter.filter(ties)
        });
        assert(sorted.push(entry).filter(ties) == if ties(entry) {
            sorted.filter(ties).push(entry)
        } else {
            sorted.filter(ties)
        });
    }
}

/// Sessions that the order does not tell apart stay as they were.
pub proof fn law_arranging_is_stable(
    order: SessionOrder,
    sessions: Seq<SessionMenuEntry>,
    probe: SessionMenuEntry,
)
    ensures
        order.arrange(sessions).filter(|other: SessionMenuEntry| tied(order, other, probe))
            == sessions.filter(|other: SessionMenuEntry| tied(order, other, probe)),
    decreases sessions.len(),
{
    reveal(Seq::filter);
    if sessions.len() > 0 {
        let init = sessions.drop_last();
        let sorted = order.arrange(init);
        law_arranging_is_stable(order, init, probe);
        lemma_with_is_stable(order, sorted, sessions.last(), probe);
        assert(sorted.push(sessions.last()).drop_last() == sorted);
    }
}

/// The menu shows as many sessions as fit: at most five at the top level and at
/// most twenty of the others in the submenu.
pub proof fn law_menu_shows_as_many_as_fit(sessions: Seq<SessionMenuEntry>)
    ensures
        top_sessions(sessions).len() == (if sessions.len() < TOP_SESSION_LIMIT {
            sessions.len()
        } else {
            TOP_SESSION_LIMIT as nat
        }),
        sessions.len() <= TOP_SESSION_LIMIT ==> history_sessions(sessions).len() == 0,
        TOP_SESSION_LIMIT < sessions.len() <= TOP_SESSION_LIMIT + HISTORY_SESSION_LIMIT
            ==> history_sessions(sessions).len() == sessions.len() - TOP_SESSION_LIMIT,
        sessions.len() > TOP_SESSION_LIMIT + HISTORY_SESSION_LIMIT ==> history_sessions(
            sessions,
        ).len() == HISTORY_SESSION_LIMIT,
{
    law_arranging_sorts(SessionOrder::Priority, sessions);
    law_arranging_sorts(SessionOrder::Recency, other_sessions(sessions));
}

/// No session below the top level is more urgent than one at the top level, and
/// each session is at the top level or among the others, not both.
pub proof fn law_top_sessions_are_the_most_urgent(
    sessions: Seq<SessionMenuEntry>,
    shown: int,
    other: int,
)
    requires
        0 <= shown < top_sessions(sessions).len(),
        0 <= other < other_sessions(sessions).len(),
    ensures
        !SessionOrder::Priority.precedes(
            other_sessions(sessions)[other],
            top_sessions(sessions)[shown],
        ),
        top_sessions(sessions).to_multiset().add(other_sessions(sessions).to_multiset())
            == sessions.to_multiset(),
{
    let ranked = SessionOrder::Priority.arrange(sessions);
    law_arranging_sorts(SessionOrder::Priority, sessions);
    assert(other_sessions(sessions)[other] == ranked[TOP_SESSION_LIMIT + other]);
    assert(top_sessions(sessions)[shown] == ranked[shown]);
    vstd::seq_lib::lemma_multiset_commutative(top_sessions(sessions), other_sessions(sessions));
    assert(top_sessions(sessions) + other_sessions(sessions) == ranked);
}

/// The submenu lists sessions from the most to the least recent, and shows no
/// session while a more recent one of the others is left out.
pub proof fn law_history_is_by_recency(sessions: Seq<SessionMenuEntry>)
    ensures
        in_order(SessionOrder::Recency, history_sessions(sessions)),
        forall|i: int, j: int|
            0 <= i < HISTORY_SESSION_LIMIT <= j < other_sessions(sessions).len() ==> #[trigger]
            SessionOrder::Recency.arrange(other_sessions(sessions))[i].updated_at >= #[trigger]
            SessionOrder::Recency.arrange(other_sessions(sessions))[j].updated_at,
{
    law_arranging_sorts(SessionOrder::Recency, other_sessions(sessions));
}

// ---------------------------------------------------------------------------
// Validation
// ---------------------------------------------------------------------------

/// An interaction that a session can wait for.
pub open spec fn is_interaction(pending: Seq<char>) -> bool {
    pending == "approval"@ || pending == "question"@ || pending == "plan-review"@
}

/// Some session before the last one has its id.
pub open spec fn repeats_an_id(sessions: Seq<SessionMenuEntry>) -> bool {
    exists|i: int|
        0 <= i < sessions.len() - 1 && (#[trigger] sessions[i]).id@ == sessions.last().id@
}

/// What is wrong with some sessions: the complaint about the first one with a
/// repeated id or an unknown interaction.
pub open spec fn sessions_complaint(sessions: Seq<SessionMenuEntry>) -> Option<Seq<char>>
    decreases sessions.len(),
{
    if sessions.len() == 0 {
        None
    } else {
        match sessions_complaint(sessions.drop_last()) {
            Some(complaint) => Some(complaint),
            None => if repeats_an_id(sessions) {
                Some("duplicate DSH session id"@)
            } else {
                match text::opt_view(sessions.last().pending_interaction) {
                    Some(pending) if !is_interaction(pending) => Some(
                        "unknown DSH session interaction"@,
                    ),
                    _ => None,
                }
            },
        }
    }
}

proof fn lemma_first_complaint_stays(sessions: Seq<SessionMenuEntry>, n: int)
    requires
        0 <= n <= sessions.len(),
        sessions_complaint(sessions.take(n)) is Some,
    ensures
        sessions_complaint(sessions) == sessions_complaint(sessions.take(n)),
    decreases sessions.len() - n,
{
    if n == sessions.len() {
        assert(sessions.take(n) == sessions);
    } else {
        assert(sessions.take(n + 1).drop_last() == sessions.take(n));
        lemma_first_complaint_stays(sessions, n + 1);
    }
}

/// Checks a snapshot: no two sessions have the same id, and each waits for nothing
/// or for a known interaction.
pub fn validate_snapshot(snapshot: &SessionMenuSnapshot) -> (checked: Result<(), String>)
    ensures
        match sessions_complaint(snapshot.sessions@) {
            Some(complaint) => checked matches Err(message) && message@ == complaint,
            None => checked is Ok,
        },
{
    let sessions = &snapshot.sessions;
    let mut i: usize = 0;
    proof {
        assert(sessions@.take(0) == Seq::<SessionMenuEntry>::empty());
    }
    while i < sessions.len()
        invariant
            i <= sessions@.len(),
            sessions@ == snapshot.sessions@,
            sessions_complaint(sessions@.take(i as int)) is None,
        decreases sessions@.len() - i,
    {
        let ghost seen = sessions@.take(i + 1);
        proof {
            assert(seen.drop_last() == sessions@.take(i as int));
            assert(seen.last() == sessions@[i as int]);
        }
        let mut j: usize = 0;
        while j < i
            invariant
                j <= i < sessions@.len(),
                sessions@ == snapshot.sessions@,
                seen == sessions@.take(i + 1),
                seen.drop_last() == sessions@.take(i as int),
                sessions_complaint(sessions@.take(i as int)) is None,
                forall|k: int| 0 <= k < j ==> (#[trigger] sessions@[k]).id@ != sessions@[i as int].id@,
            decreases i - j,
        {
            if same_text(sessions[j].id.as_str(), sessions[i].id.as_str()) {
                proof {
                    assert(seen[j as int].id@ == seen.last().id@);
                    lemma_first_complaint_stays(sessions@, i + 1);
                }
                return Err("duplicate DSH session id".to_string());
            }
            j = j + 1;
        }
        assert(!repeats_an_id(seen)) by {
            assert forall|k: int| 0 <= k < seen.len() - 1 implies (#[trigger] seen[k]).id@
                != seen.last().id@ by {
                assert(seen[k] == sessions@[k]);
            }
        }
        match &sessions[i].pending_interaction {
            Some(pending) => {
                if !same_text(pending.as_str(), "approval") && !same_text(
                    pending.as_str(),
                    "question",
                ) && !same_text(pending.as_str(), "plan-review") {
                    proof {
                        lemma_first_complaint_stays(sessions@, i + 1);
                    }
                    return Err("unknown DSH session interaction".to_string());
                }
            },
            None => {},
        }
        i = i + 1;
    }
    assert(sessions@.take(i as int) == sessions@);
    Ok(())
}

/// A snapshot passes exactly where its ids are distinct and its interactions
/// known.
pub proof fn law_valid_snapshots(sessions: Seq<SessionMenuEntry>)
    ensures
        sessions_complaint(sessions) is None <==> {
            &&& forall|i: int, j: int|
                0 <= i < j < sessions.len() ==> (#[trigger] sessions[i]).id@ != (
                #[trigger] sessions[j]).id@
            &&& forall|i: int|
                0 <= i < sessions.len() ==> match text::opt_view(
                    (#[trigger] sessions[i]).pending_interaction,
                ) {
                    Some(pending) => is_interaction(pending),
                    None => true,
                }
        },
    decreases sessions.len(),
{
    if sessions.len() > 0 {
        let init = sessions.drop_last();
        let last = sessions.len() - 1;
        law_valid_snapshots(init);
        if sessions_complaint(sessions) is None {
            assert forall|i: int, j: int| 0 <= i < j < sessions.len() implies (
            #[trigger] sessions[i]).id@ != (#[trigger] sessions[j]).id@ by {
                if j < last {
                    assert(init[i].id@ != init[j].id@);
                }
            }
            assert forall|i: int| 0 <= i < sessions.len() implies match text::opt_view(
                (#[trigger] sessions[i]).pending_interaction,
            ) {
                Some(pending) => is_interaction(pending),
                None => true,
            } by {
                if i < last {
                    assert(init[i] == sessions[i]);
                }
            }
        } else if sessions_complaint(init) is Some {
            assert(forall|i: int| 0 <= i < init.len() ==> init[i] == sessions[i]);
        }
    }
}

// ---------------------------------------------------------------------------
// Labels
// ---------------------------------------------------------------------------

/// A text with a space in place of each control character.
pub open spec fn without_controls(value: Seq<char>) -> Seq<char> {
    value.map_values(
        |c: char|
            if text::is_control(c) {
                ' '
            } else {
                c
            },
    )
}

/// A text as a menu shows it: on one line, with single spaces between words.
pub open spec fn menu_text(value: Seq<char>) -> Seq<char> {
    text::join(text::words(without_controls(value)), " "@)
}

/// A text as a menu shows it: on one line, with single spaces between words.
pub fn clean_menu_text(value: &str) -> (cleaned: String)
    ensures
        cleaned@ == menu_text(value@),
{
    let chars = chars_of(value);
    let mut replaced = String::new();
    let mut i: usize = 0;
    let ghost all = without_controls(value@);
    while i < chars.len()
        invariant
            i <= chars@.len(),
            chars@ == value@,
            all == without_controls(value@),
            replaced@ == all.take(i as int),
        decreases chars@.len() - i,
    {
        if control(chars[i]) {
            replaced.push(' ');
        } else {
            replaced.push(chars[i]);
        }
        assert(all.take(i + 1) == all.take(i as int).push(all[i as int]));
        i = i + 1;
    }
    assert(all.take(i as int) == all);
    joined(&words_of(replaced.as_str()), " ")
}

/// A text, shortened where it is too long for a label.
pub open spec fn short_label(value: Seq<char>) -> Seq<char> {
    text::shorten(
        value,
        SESSION_MENU_LABEL_LIMIT as nat,
        (SESSION_MENU_LABEL_LIMIT - 3) as nat,
        "..."@,
    )
}

/// A text, shortened where it is too long for a label.
pub fn truncate_menu_text(value: String) -> (truncated: String)
    ensures
        truncated@ == short_label(value@),
{
    shortened(value.as_str(), SESSION_MENU_LABEL_LIMIT, SESSION_MENU_LABEL_LIMIT - 3, "...")
}

/// What a session is called: its title, and its workspace where that says more.
pub open spec fn session_subject(locale: NativeLocale, session: SessionMenuEntry) -> Seq<char> {
    let cleaned = menu_text(session.title@);
    let title = if cleaned.len() == 0 {
        locale.pick("未命名会话"@, "Untitled Session"@)
    } else {
        cleaned
    };
    match text::opt_view(session.workspace) {
        Some(workspace) if menu_text(workspace).len() > 0 && menu_text(workspace) != title => title
            + " - "@ + menu_text(workspace),
        _ => title,
    }
}

/// How a label announces what its session is doing. An idle session is not
/// announced.
pub open spec fn state_prefix(locale: NativeLocale, state: SessionState) -> Seq<char> {
    match state {
        SessionState::NeedsApproval => locale.pick("[需批准] "@, "[Approval Needed] "@),
        SessionState::WaitsForAnswer => locale.pick("[待回答] "@, "[Waiting for You] "@),
        SessionState::Running => locale.pick("[进行中] "@, "[Running] "@),
        SessionState::Completed => locale.pick("[完成待查看] "@, "[Ready to Review] "@),
        SessionState::Idle => ""@,
    }
}

/// The label of a session.
pub open spec fn session_label(locale: NativeLocale, session: SessionMenuEntry) -> Seq<char> {
    short_label(state_prefix(locale, session.state()) + session_subject(locale, session))
}

/// The label of a session: what it is doing, its title, and its workspace where
/// that says more.
pub fn session_menu_label(locale: NativeLocale, session: &SessionMenuEntry) -> (label: String)
    ensures
        label@ == session_label(locale, *session),
{
    let cleaned = clean_menu_text(session.title.as_str());
    let title = if cleaned.as_str().is_empty() {
        locale.text("未命名会话", "Untitled Session").to_string()
    } else {
        cleaned
    };
    let mut label = (match session.current_state() {
        SessionState::NeedsApproval => locale.text("[需批准] ", "[Approval Needed] "),
        SessionState::WaitsForAnswer => locale.text("[待回答] ", "[Waiting for You] "),
        SessionState::Running => locale.text("[进行中] ", "[Running] "),
        SessionState::Completed => locale.text("[完成待查看] ", "[Ready to Review] "),
        SessionState::Idle => "",
    }).to_string();
    let ghost prefix = label@;
    label.append(title.as_str());
    match &session.workspace {
        Some(workspace) => {
            let place = clean_menu_text(workspace.as_str());
            if !place.as_str().is_empty() && !same_text(place.as_str(), title.as_str()) {
                label.append(" - ");
                label.append(place.as_str());
                assert(label@ == prefix + (title@ + " - "@ + place@));
            }
        },
        None => {},
    }
    truncate_menu_text(label)
}

proof fn lemma_words_come_from_the_text(s: Seq<char>)
    ensures
        forall|i: int, k: int|
            0 <= i < text::words(s).len() && 0 <= k < text::words(s)[i].len() ==> s.contains(
                #[trigger] text::words(s)[i][k],
            ),
    decreases s.len(),
{
    if s.len() > 0 {
        let init = s.drop_last();
        lemma_words_come_from_the_text(init);
        text::law_words_are_clean(init);
        let found = text::words(init);
        let all = text::words(s);
        assert(s[s.len() - 1] == s.last());
        assert forall|i: int, k: int|
            0 <= i < all.len() && 0 <= k < all[i].len() implies s.contains(
            #[trigger] all[i][k],
        ) by {
            if i < found.len() && k < found[i].len() && all[i][k] == found[i][k] {
                let at = init.index_of(found[i][k]);
                assert(s[at] == all[i][k]);
            } else {
                assert(all[i][k] == s.last());
            }
        }
    }
}

/// A text without control characters.
pub open spec fn is_printable(s: Seq<char>) -> bool {
    forall|i: int| 0 <= i < s.len() ==> !text::is_control(#[trigger] s[i])
}

proof fn lemma_join_is_printable(parts: Seq<Seq<char>>, sep: Seq<char>)
    requires
        is_printable(sep),
        forall|i: int| 0 <= i < parts.len() ==> is_printable(#[trigger] parts[i]),
    ensures
        is_printable(text::join(parts, sep)),
    decreases parts.len(),
{
    if parts.len() > 1 {
        let init = parts.drop_last();
        assert forall|i: int| 0 <= i < init.len() implies is_printable(#[trigger] init[i]) by {
            assert(init[i] == parts[i]);
        }
        lemma_join_is_printable(init, sep);
        assert(is_printable(parts[parts.len() - 1]));
    }
}

proof fn lemma_menu_text_is_printable(value: Seq<char>)
    ensures
        is_printable(menu_text(value)),
{
    let replaced = without_controls(value);
    let found = text::words(replaced);
    lemma_words_come_from_the_text(replaced);
    assert forall|i: int| 0 <= i < found.len() implies is_printable(#[trigger] found[i]) by {
        assert forall|k: int| 0 <= k < found[i].len() implies !text::is_control(
            #[trigger] found[i][k],
        ) by {
            let at = replaced.index_of(found[i][k]);
            assert(replaced[at] == found[i][k]);
        }
    }
    reveal_strlit(" ");
    lemma_join_is_printable(found, " "@);
}

/// A label fits, and holds no control characters, whatever the session is called.
pub proof fn law_labels_fit_and_are_printable(locale: NativeLocale, session: SessionMenuEntry)
    ensures
        session_label(locale, session).len() <= SESSION_MENU_LABEL_LIMIT,
        is_printable(session_label(locale, session)),
{
    reveal_strlit("...");
    reveal_strlit(" - ");
    reveal_strlit("");
    reveal_strlit("未命名会话");
    reveal_strlit("Untitled Session");
    reveal_strlit("[需批准] ");
    reveal_strlit("[Approval Needed] ");
    reveal_strlit("[待回答] ");
    reveal_strlit("[Waiting for You] ");
    reveal_strlit("[进行中] ");
    reveal_strlit("[Running] ");
    reveal_strlit("[完成待查看] ");
    reveal_strlit("[Ready to Review] ");
    lemma_menu_text_is_printable(session.title@);
    if let Some(workspace) = text::opt_view(session.workspace) {
        lemma_menu_text_is_printable(workspace);
    }
    assert(is_printable(state_prefix(locale, session.state())));
    assert(is_printable(session_subject(locale, session)));
    let whole = state_prefix(locale, session.state()) + session_subject(locale, session);
    assert(is_printable(whole));
}

/// An idle session is called by its name alone: its label announces neither work
/// nor a result.
pub proof fn law_idle_labels_announce_nothing(locale: NativeLocale, session: SessionMenuEntry)
    requires
        session.state() == SessionState::Idle,
    ensures
        session_label(locale, session) == short_label(session_subject(locale, session)),
{
    reveal_strlit("");
    assert(""@ + session_subject(locale, session) == session_subject(locale, session));
}

// ---------------------------------------------------------------------------
// What the menu promises
// ---------------------------------------------------------------------------

/// What a session waits for decides its state, whatever else is true of it; then
/// whether it runs, then whether it finished.
pub proof fn law_what_a_session_waits_for_counts_first(session: SessionMenuEntry)
    ensures
        session.pending_interaction matches Some(pending) ==> (pending@ == "approval"@
            ==> session.state() == SessionState::NeedsApproval),
        session.pending_interaction matches Some(pending) ==> (pending@ == "question"@
            ==> session.state() == SessionState::WaitsForAnswer),
        session.pending_interaction matches Some(pending) ==> (pending@ == "plan-review"@
            ==> session.state() == SessionState::WaitsForAnswer),
        session.pending_interaction is None && session.running ==> session.state()
            == SessionState::Running,
        session.pending_interaction is None && !session.running && session.completed
            ==> session.state() == SessionState::Completed,
        session.pending_interaction is None && !session.running && !session.completed
            ==> session.state() == SessionState::Idle,
        session.state() == SessionState::NeedsApproval ==> session.pending_interaction is Some
            && session.pending_interaction->0@ == "approval"@,
        session.state() == SessionState::WaitsForAnswer ==> session.pending_interaction is Some
            && (session.pending_interaction->0@ == "question"@ || session.pending_interaction->0@
            == "plan-review"@),
        session.state() == SessionState::Running ==> session.running,
        session.state() == SessionState::Completed ==> session.completed && !session.running,
        session.state() == SessionState::Idle ==> !session.completed && !session.running,
{
    reveal_strlit("approval");
    reveal_strlit("question");
    reveal_strlit("plan-review");
    assert("approval"@[0] == 'a' && "question"@[0] == 'q' && "plan-review"@[0] == 'p');
}

proof fn lemma_label_keeps_the_prefix(locale: NativeLocale, session: SessionMenuEntry)
    ensures
        text::starts_with(
            session_label(locale, session),
            state_prefix(locale, session.state()),
        ),
{
    reveal_strlit("");
    reveal_strlit("[需批准] ");
    reveal_strlit("[Approval Needed] ");
    reveal_strlit("[待回答] ");
    reveal_strlit("[Waiting for You] ");
    reveal_strlit("[进行中] ");
    reveal_strlit("[Running] ");
    reveal_strlit("[完成待查看] ");
    reveal_strlit("[Ready to Review] ");
    let prefix = state_prefix(locale, session.state());
    let whole = prefix + session_subject(locale, session);
    let label = session_label(locale, session);
    assert(prefix.len() <= 30);
    assert(label.len() >= prefix.len());
    assert(label.take(prefix.len() as int) =~= prefix);
}

/// The label of a session starts with what it waits for, whatever else is true of
/// it, in both languages.
pub proof fn law_labels_announce_what_is_waited_for(session: SessionMenuEntry)
    ensures
        session.pending_interaction matches Some(pending) ==> (pending@ == "approval"@
            ==> text::starts_with(
            session_label(NativeLocale::Zh, session),
            "[需批准] "@,
        ) && text::starts_with(
            session_label(NativeLocale::En, session),
            "[Approval Needed] "@,
        )),
        session.pending_interaction matches Some(pending) ==> (pending@ == "question"@ || pending@
            == "plan-review"@ ==> text::starts_with(
            session_label(NativeLocale::Zh, session),
            "[待回答] "@,
        ) && text::starts_with(
            session_label(NativeLocale::En, session),
            "[Waiting for You] "@,
        )),
        session.pending_interaction is None && session.running ==> text::starts_with(
            session_label(NativeLocale::Zh, session),
            "[进行中] "@,
        ) && text::starts_with(session_label(NativeLocale::En, session), "[Running] "@),
        session.pending_interaction is None && !session.running && session.completed
            ==> text::starts_with(
            session_label(NativeLocale::Zh, session),
            "[完成待查看] "@,
        ) && text::starts_with(
            session_label(NativeLocale::En, session),
            "[Ready to Review] "@,
        ),
{
    law_what_a_session_waits_for_counts_first(session);
    lemma_label_keeps_the_prefix(NativeLocale::Zh, session);
    lemma_label_keeps_the_prefix(NativeLocale::En, session);
}

/// Urgency goes by what a session waits for, an approval before an answer, then by
/// whether it runs, then by whether it finished; the more recent of two that are
/// equally urgent comes first. Recency looks at nothing but the time.
pub proof fn law_order_of_sessions(a: SessionMenuEntry, b: SessionMenuEntry)
    ensures
        ({
            let waits = |session: SessionMenuEntry, pending: Seq<char>|
                session.pending_interaction is Some && session.pending_interaction->0@ == pending;
            let level = |session: SessionMenuEntry|
                if waits(session, "approval"@) {
                    5int
                } else if waits(session, "question"@) || waits(session, "plan-review"@) {
                    4
                } else if session.running {
                    3
                } else if session.completed {
                    2
                } else {
                    1
                };
            &&& level(a) > level(b) ==> SessionOrder::Priority.precedes(a, b)
            &&& level(a) < level(b) ==> !SessionOrder::Priority.precedes(a, b)
            &&& level(a) == level(b) ==> SessionOrder::Priority.precedes(a, b) == (a.updated_at
                > b.updated_at)
        }),
        SessionOrder::Recency.precedes(a, b) == (a.updated_at > b.updated_at),
{
    reveal_strlit("approval");
    reveal_strlit("question");
    reveal_strlit("plan-review");
    assert("approval"@[0] == 'a' && "question"@[0] == 'q' && "plan-review"@[0] == 'p');
}

/// The menu shows five sessions at the top level and twenty of the others, or as
/// many as there are.
pub proof fn law_menu_sizes(sessions: Seq<SessionMenuEntry>)
    ensures
        sessions.len() <= 5 ==> top_sessions(sessions).len() == sessions.len() && history_sessions(
            sessions,
        ).len() == 0,
        sessions.len() > 5 ==> top_sessions(sessions).len() == 5,
        5 < sessions.len() <= 25 ==> history_sessions(sessions).len() == sessions.len() - 5,
        sessions.len() > 25 ==> history_sessions(sessions).len() == 20,
{
    law_menu_shows_as_many_as_fit(sessions);
}

/// The top level goes from the most to the least urgent.
pub proof fn law_top_sessions_are_in_order(sessions: Seq<SessionMenuEntry>, i: int, j: int)
    requires
        0 <= i < j < top_sessions(sessions).len(),
    ensures
        !SessionOrder::Priority.precedes(top_sessions(sessions)[j], top_sessions(sessions)[i]),
        sessions.contains(top_sessions(sessions)[i]),
{
    broadcast use vstd::seq_lib::group_to_multiset_ensures;

    let ranked = SessionOrder::Priority.arrange(sessions);
    law_arranging_sorts(SessionOrder::Priority, sessions);
    assert(top_sessions(sessions)[i] == ranked[i]);
    assert(top_sessions(sessions)[j] == ranked[j]);
    assert(ranked.contains(ranked[i]));
    assert(ranked.to_multiset().count(ranked[i]) > 0);
    assert(sessions.to_multiset().count(ranked[i]) > 0);
}

/// The submenu goes from the most to the least recent, holds none but sessions that
/// are not at the top level, and holds each of those that is more recent than one
/// that it shows.
pub proof fn law_history_shows_the_most_recent(sessions: Seq<SessionMenuEntry>)
    ensures
        forall|i: int, j: int|
            0 <= i < j < history_sessions(sessions).len() ==> (#[trigger] history_sessions(
                sessions,
            )[i]).updated_at >= (#[trigger] history_sessions(sessions)[j]).updated_at,
        forall|i: int|
            0 <= i < history_sessions(sessions).len() ==> other_sessions(sessions).contains(
                #[trigger] history_sessions(sessions)[i],
            ),
        forall|i: int, j: int|
            0 <= i < history_sessions(sessions).len() && 0 <= j < other_sessions(sessions).len() && (
            #[trigger] other_sessions(sessions)[j]).updated_at > (#[trigger] history_sessions(
                sessions,
            )[i]).updated_at ==> history_sessions(sessions).contains(other_sessions(sessions)[j]),
{
    broadcast use vstd::seq_lib::group_to_multiset_ensures;

    let others = other_sessions(sessions);
    let recent = SessionOrder::Recency.arrange(others);
    let shown = history_sessions(sessions);
    law_arranging_sorts(SessionOrder::Recency, others);
    assert(forall|i: int| 0 <= i < shown.len() ==> #[trigger] shown[i] == recent[i]);
    assert forall|i: int, j: int| 0 <= i < j < shown.len() implies (#[trigger] shown[i]).updated_at
        >= (#[trigger] shown[j]).updated_at by {
        assert(!SessionOrder::Recency.precedes(recent[j], recent[i]));
    }
    assert forall|i: int| 0 <= i < shown.len() implies others.contains(#[trigger] shown[i]) by {
        assert(recent.contains(recent[i]));
        assert(recent.to_multiset().count(recent[i]) > 0);
        assert(others.to_multiset().count(recent[i]) > 0);
    }
    assert forall|i: int, j: int|
        0 <= i < shown.len() && 0 <= j < others.len() && (#[trigger] others[j]).updated_at > (
        #[trigger] shown[i]).updated_at implies shown.contains(others[j]) by {
        assert(others.contains(others[j]));
        assert(others.to_multiset().count(others[j]) > 0);
        assert(recent.to_multiset().count(others[j]) > 0);
        assert(recent.contains(others[j]));
        let m = recent.index_of(others[j]);
        if m > i {
            assert(!SessionOrder::Recency.precedes(recent[m], recent[i]));
        }
        assert(m <= i);
        assert(shown[m] == others[j]);
    }
}

/// A snapshot is refused for the first session that repeats the id of one before
/// it or waits for something unknown, in this order.
pub proof fn law_first_fault_is_told(sessions: Seq<SessionMenuEntry>, n: int)
    requires
        0 <= n < sessions.len(),
        forall|i: int, j: int|
            0 <= i < j < n ==> (#[trigger] sessions[i]).id@ != (#[trigger] sessions[j]).id@,
        forall|i: int|
            0 <= i < n ==> (#[trigger] sessions[i]).pending_interaction is None
                || sessions[i].pending_interaction->0@ == "approval"@
                || sessions[i].pending_interaction->0@ == "question"@
                || sessions[i].pending_interaction->0@ == "plan-review"@,
    ensures
        (exists|i: int| 0 <= i < n && (#[trigger] sessions[i]).id@ == sessions[n].id@)
            ==> sessions_complaint(sessions) == Some("duplicate DSH session id"@),
        (forall|i: int| 0 <= i < n ==> (#[trigger] sessions[i]).id@ != sessions[n].id@)
            && sessions[n].pending_interaction is Some && sessions[n].pending_interaction->0@
            != "approval"@ && sessions[n].pending_interaction->0@ != "question"@
            && sessions[n].pending_interaction->0@ != "plan-review"@ ==> sessions_complaint(
            sessions,
        ) == Some("unknown DSH session interaction"@),
{
    let before = sessions.take(n);
    let seen = sessions.take(n + 1);
    assert forall|i: int, j: int| 0 <= i < j < before.len() implies (#[trigger] before[i]).id@ != (
    #[trigger] before[j]).id@ by {
        assert(before[i] == sessions[i] && before[j] == sessions[j]);
    }
    assert forall|i: int| 0 <= i < before.len() implies match text::opt_view(
        (#[trigger] before[i]).pending_interaction,
    ) {
        Some(pending) => is_interaction(pending),
        None => true,
    } by {
        assert(before[i] == sessions[i]);
    }
    law_valid_snapshots(before);
    assert(seen.drop_last() == before);
    assert(seen.last() == sessions[n]);
    if exists|i: int| 0 <= i < n && (#[trigger] sessions[i]).id@ == sessions[n].id@ {
        let i = choose|i: int| 0 <= i < n && (#[trigger] sessions[i]).id@ == sessions[n].id@;
        assert(seen[i] == sessions[i]);
        assert(repeats_an_id(seen));
        lemma_first_complaint_stays(sessions, n + 1);
    } else if sessions[n].pending_interaction is Some && !is_interaction(
        sessions[n].pending_interaction->0@,
    ) {
        assert forall|i: int| 0 <= i < seen.len() - 1 implies (#[trigger] seen[i]).id@
            != seen.last().id@ by {
            assert(seen[i] == sessions[i]);
        }
        lemma_first_complaint_stays(sessions, n + 1);
    }
}

/// A snapshot whose ids differ and whose sessions wait for nothing, for an
/// approval, for the answer to a question or for the review of a plan, passes.
pub proof fn law_sound_snapshots_pass(sessions: Seq<SessionMenuEntry>)
    requires
        forall|i: int, j: int|
            0 <= i < j < sessions.len() ==> (#[trigger] sessions[i]).id@ != (
            #[trigger] sessions[j]).id@,
        forall|i: int|
            0 <= i < sessions.len() ==> (#[trigger] sessions[i]).pending_interaction is None
                || sessions[i].pending_interaction->0@ == "approval"@
                || sessions[i].pending_interaction->0@ == "question"@
                || sessions[i].pending_interaction->0@ == "plan-review"@,
    ensures
        sessions_complaint(sessions) is None,
{
    law_valid_snapshots(sessions);
}

/// Control characters become spaces, and everything else stays as it is.
pub proof fn law_controls_become_spaces(value: Seq<char>, i: int)
    requires
        0 <= i < value.len(),
    ensures
        without_controls(value).len() == value.len(),
        value[i] as int <= 31 || 127 <= value[i] as int <= 159 ==> without_controls(value)[i] == ' ',
        32 <= value[i] as int <= 126 || value[i] as int >= 160 ==> without_controls(value)[i]
            == value[i],
{
}

proof fn lemma_joined_words(found: Seq<Seq<char>>)
    requires
        forall|i: int| 0 <= i < found.len() ==> (#[trigger] found[i]).len() > 0,
        forall|i: int, k: int|
            0 <= i < found.len() && 0 <= k < found[i].len() ==> !text::is_white_space(
                #[trigger] found[i][k],
            ),
    ensures
        text::words(text::join(found, " "@)) == found,
    decreases found.len(),
{
    reveal_strlit(" ");
    if found.len() == 0 {
        text::law_words_are_separated_by_white_space(Seq::empty(), ' ', Seq::empty());
        assert(found == Seq::<Seq<char>>::empty());
    } else {
        let last = found[found.len() - 1];
        assert forall|k: int| 0 <= k < last.len() implies !text::is_white_space(
            #[trigger] last[k],
        ) by {
            assert(!text::is_white_space(found[found.len() - 1][k]));
        }
        text::law_words_are_separated_by_white_space(last, ' ', Seq::empty());
        if found.len() == 1 {
            assert(found == seq![last]);
        } else {
            let init = found.drop_last();
            assert forall|i: int, k: int|
                0 <= i < init.len() && 0 <= k < init[i].len() implies !text::is_white_space(
                #[trigger] init[i][k],
            ) by {
                assert(!text::is_white_space(found[i][k]));
            }
            lemma_joined_words(init);
            text::law_words_are_separated_by_white_space(text::join(init, " "@), ' ', last);
            assert(text::join(found, " "@) == text::join(init, " "@) + seq![' '] + last);
            assert(init + seq![last] == found);
        }
    }
}

/// A text in a menu keeps its words in their order, holds nothing but them and
/// single spaces, and is shown again as it is.
pub proof fn law_menu_text_keeps_the_words(value: Seq<char>)
    ensures
        text::words(menu_text(value)) == text::words(without_controls(value)),
        menu_text(value) == text::join(text::words(without_controls(value)), seq![' ']),
        menu_text(menu_text(value)) == menu_text(value),
{
    let found = text::words(without_controls(value));
    let shown = menu_text(value);
    reveal_strlit(" ");
    assert(" "@ =~= seq![' ']);
    text::law_words_are_clean(without_controls(value));
    lemma_joined_words(found);
    lemma_menu_text_is_printable(value);
    assert forall|i: int| 0 <= i < shown.len() implies without_controls(shown)[i] == shown[i] by {
        assert(!text::is_control(shown[i]));
    }
    assert(without_controls(shown) =~= shown);
}

/// A label of at most ninety-six characters is shown whole; a longer one keeps its
/// first ninety-three and ends with three dots.
pub proof fn law_long_labels_end_with_dots(value: Seq<char>)
    ensures
        value.len() <= 96 ==> short_label(value) == value,
        value.len() > 96 ==> short_label(value).len() == 96 && short_label(value).take(93)
            == value.take(93) && short_label(value).skip(93) == seq!['.', '.', '.'],
{
    reveal_strlit("...");
    if value.len() > 96 {
        assert(short_label(value).take(93) =~= value.take(93));
        assert(short_label(value).skip(93) =~= seq!['.', '.', '.']);
    }
}

/// A session is called by its title, by a stand-in where that is blank; its
/// workspace follows, unless that is blank or says the same.
pub proof fn law_subjects_name_title_and_workspace(locale: NativeLocale, session: SessionMenuEntry)
    ensures
        ({
            let subject = session_subject(locale, session);
            let written = menu_text(session.title@);
            let title = if written.len() > 0 {
                written
            } else if locale == NativeLocale::Zh {
                "未命名会话"@
            } else {
                "Untitled Session"@
            };
            &&& session.workspace is None ==> subject == title
            &&& session.workspace matches Some(workspace) ==> (menu_text(workspace@).len() == 0
                || menu_text(workspace@) == title ==> subject == title)
            &&& session.workspace matches Some(workspace) ==> (menu_text(workspace@).len() > 0
                && menu_text(workspace@) != title ==> {
                &&& text::starts_with(subject, title)
                &&& subject.len() == title.len() + 3 + menu_text(workspace@).len()
                &&& subject.skip(title.len() as int + 3) == menu_text(workspace@)
                &&& subject.subrange(title.len() as int, title.len() as int + 3) == seq![' ', '-', ' ']
            })
        }),
{
    reveal_strlit(" - ");
    let subject = session_subject(locale, session);
    let written = menu_text(session.title@);
    let title = if written.len() > 0 {
        written
    } else if locale == NativeLocale::Zh {
        "未命名会话"@
    } else {
        "Untitled Session"@
    };
    if let Some(workspace) = session.workspace {
        let place = menu_text(workspace@);
        if place.len() > 0 && place != title {
            assert(subject == title + " - "@ + place);
            assert(subject.take(title.len() as int) =~= title);
            assert(subject.skip(title.len() as int + 3) =~= place);
            assert(subject.subrange(title.len() as int, title.len() as int + 3) =~= seq![
                ' ',
                '-',
                ' ',
            ]);
        }
    }
}

/// A label is the announcement and the subject, shortened.
pub proof fn law_labels_hold_the_subject(locale: NativeLocale, session: SessionMenuEntry)
    ensures
        ({
            let label = session_label(locale, session);
            let subject = session_subject(locale, session);
            label.len() < 96 ==> label.len() >= subject.len() && label.skip(
                label.len() - subject.len(),
            ) == subject
        }),
        session_label(locale, session).len() <= 96,
{
    reveal_strlit("...");
    let label = session_label(locale, session);
    let subject = session_subject(locale, session);
    if label.len() < 96 {
        assert(label == state_prefix(locale, session.state()) + subject);
        assert(label.skip(label.len() - subject.len()) =~= subject);
    }
}

/// Each session is at the top level or among the others, not both, and none is lost.
pub proof fn law_no_session_is_lost(sessions: Seq<SessionMenuEntry>, references: Seq<&SessionMenuEntry>)
    ensures
        top_sessions(sessions).to_multiset().add(other_sessions(sessions).to_multiset())
            == sessions.to_multiset(),
        referred(references).len() == references.len(),
        forall|i: int|
            0 <= i < references.len() ==> #[trigger] referred(references)[i] == *references[i],
{
    let ranked = SessionOrder::Priority.arrange(sessions);
    law_arranging_sorts(SessionOrder::Priority, sessions);
    vstd::seq_lib::lemma_multiset_commutative(top_sessions(sessions), other_sessions(sessions));
    assert(top_sessions(sessions) + other_sessions(sessions) =~= ranked);
}

/// The sessions that are selected: at most five for the top level, the most urgent
/// first; at most twenty for the submenu, the most recent first; and each of them
/// was given.
pub proof fn law_selected_sessions(
    sessions: &[SessionMenuEntry],
    top: Vec<&SessionMenuEntry>,
    history: Vec<&SessionMenuEntry>,
)
    requires
        call_ensures(select_sessions, (sessions,), (top, history)),
    ensures
        top@.len() == (if sessions@.len() < 5 {
            sessions@.len()
        } else {
            5
        }),
        history@.len() == (if sessions@.len() < 5 {
            0
        } else if sessions@.len() < 25 {
            sessions@.len() - 5
        } else {
            20
        }),
        forall|i: int, j: int|
            0 <= i < j < top@.len() ==> !SessionOrder::Priority.precedes(
                *(#[trigger] top@[j]),
                *(#[trigger] top@[i]),
            ),
        forall|i: int, j: int|
            0 <= i < j < history@.len() ==> (#[trigger] history@[i]).updated_at >= (
            #[trigger] history@[j]).updated_at,
        forall|i: int| 0 <= i < top@.len() ==> sessions@.contains(*(#[trigger] top@[i])),
        forall|i: int, j: int|
            0 <= i < top@.len() && 0 <= j < history@.len() ==> !SessionOrder::Priority.precedes(
                *(#[trigger] history@[j]),
                *(#[trigger] top@[i]),
            ),
{
    let shown = top_sessions(sessions@);
    let listed = history_sessions(sessions@);
    let others = other_sessions(sessions@);
    assert(referred(top@).len() == top@.len());
    assert(referred(history@).len() == history@.len());
    assert forall|i: int| 0 <= i < top@.len() implies shown[i] == *(#[trigger] top@[i]) by {
        assert(referred(top@)[i] == *top@[i]);
    }
    assert forall|i: int| 0 <= i < history@.len() implies listed[i] == *(
    #[trigger] history@[i]) by {
        assert(referred(history@)[i] == *history@[i]);
    }
    law_menu_sizes(sessions@);
    law_arranging_sorts(SessionOrder::Priority, sessions@);
    law_history_shows_the_most_recent(sessions@);
    assert forall|i: int, j: int| 0 <= i < j < top@.len() implies !SessionOrder::Priority.precedes(
        *(#[trigger] top@[j]),
        *(#[trigger] top@[i]),
    ) by {
        law_top_sessions_are_in_order(sessions@, i, j);
    }
    assert forall|i: int| 0 <= i < top@.len() implies sessions@.contains(*(
    #[trigger] top@[i])) by {
        lemma_arranged_come_from_the_sessions(SessionOrder::Priority, sessions@, i);
    }
    assert forall|i: int, j: int|
        0 <= i < top@.len() && 0 <= j < history@.len() implies !SessionOrder::Priority.precedes(
        *(#[trigger] history@[j]),
        *(#[trigger] top@[i]),
    ) by {
        assert(others.contains(listed[j]));
        let k = others.index_of(listed[j]);
        law_top_sessions_are_the_most_urgent(sessions@, i, k);
    }
}

proof fn lemma_arranged_come_from_the_sessions(
    order: SessionOrder,
    sessions: Seq<SessionMenuEntry>,
    i: int,
)
    requires
        0 <= i < sessions.len(),
    ensures
        order.arrange(sessions).len() == sessions.len(),
        sessions.contains(order.arrange(sessions)[i]),
{
    broadcast use vstd::seq_lib::group_to_multiset_ensures;

    let arranged = order.arrange(sessions);
    law_arranging_sorts(order, sessions);
    assert(arranged.contains(arranged[i]));
    assert(arranged.to_multiset().count(arranged[i]) > 0);
    assert(sessions.to_multiset().count(arranged[i]) > 0);
}

/// The label that is made of a session starts with what it waits for, whatever else
/// is true of it, and is never too long.
pub proof fn law_made_labels(locale: NativeLocale, session: &SessionMenuEntry, label: String)
    requires
        call_ensures(session_menu_label, (locale, session), label),
    ensures
        label@.len() <= 96,
        session.pending_interaction matches Some(pending) ==> (pending@ == "approval"@
            ==> text::starts_with(
            label@,
            if locale == NativeLocale::Zh {
                "[需批准] "@
            } else {
                "[Approval Needed] "@
            },
        )),
        session.pending_interaction matches Some(pending) ==> (pending@ == "question"@ || pending@
            == "plan-review"@ ==> text::starts_with(
            label@,
            if locale == NativeLocale::Zh {
                "[待回答] "@
            } else {
                "[Waiting for You] "@
            },
        )),
        session.pending_interaction is None && session.running ==> text::starts_with(
            label@,
            if locale == NativeLocale::Zh {
                "[进行中] "@
            } else {
                "[Running] "@
            },
        ),
        session.pending_interaction is None && !session.running && session.completed
            ==> text::starts_with(
            label@,
            if locale == NativeLocale::Zh {
                "[完成待查看] "@
            } else {
                "[Ready to Review] "@
            },
        ),
{
    law_labels_announce_what_is_waited_for(*session);
    law_labels_hold_the_subject(locale, *session);
}

/// A snapshot passes exactly where no two of its sessions have the same id and each
/// waits for nothing, an approval, an answer or a review.
pub proof fn law_validated_snapshots(snapshot: &SessionMenuSnapshot, checked: Result<(), String>)
    requires
        call_ensures(validate_snapshot, (snapshot,), checked),
    ensures
        checked is Ok <==> {
            &&& forall|i: int, j: int|
                0 <= i < j < snapshot.sessions@.len() ==> (#[trigger] snapshot.sessions@[i]).id@
                    != (#[trigger] snapshot.sessions@[j]).id@
            &&& forall|i: int|
                0 <= i < snapshot.sessions@.len() ==> {
                    let pending = (#[trigger] snapshot.sessions@[i]).pending_interaction;
                    pending is None || pending->0@ == "approval"@ || pending->0@ == "question"@
                        || pending->0@ == "plan-review"@
                }
        },
{
    let sessions = snapshot.sessions@;
    law_valid_snapshots(sessions);
    if sessions_complaint(sessions) is None {
        assert forall|i: int| 0 <= i < sessions.len() implies {
            let pending = (#[trigger] sessions[i]).pending_interaction;
            pending is None || pending->0@ == "approval"@ || pending->0@ == "question"@
                || pending->0@ == "plan-review"@
        } by {
            assert(match text::opt_view(sessions[i].pending_interaction) {
                Some(pending) => is_interaction(pending),
                None => true,
            });
        }
    } else if (forall|i: int, j: int|
        0 <= i < j < sessions.len() ==> (#[trigger] sessions[i]).id@ != (
        #[trigger] sessions[j]).id@) && (forall|i: int|
        0 <= i < sessions.len() ==> {
            let pending = (#[trigger] sessions[i]).pending_interaction;
            pending is None || pending->0@ == "approval"@ || pending->0@ == "question"@
                || pending->0@ == "plan-review"@
        }) {
        law_sound_snapshots_pass(sessions);
    }
}

/// A text in a menu keeps its words and loses its control characters; one that is too
/// long for a label keeps its first ninety-three characters and ends in dots.
pub proof fn law_cleaned_and_cut_texts(
    value: &str,
    cleaned: String,
    long: String,
    truncated: String,
)
    ensures
        call_ensures(clean_menu_text, (value,), cleaned) ==> text::words(cleaned@) == text::words(
            without_controls(value@),
        ) && is_printable(cleaned@),
        call_ensures(truncate_menu_text, (long,), truncated) && long@.len() <= 96 ==> truncated@
            == long@,
        call_ensures(truncate_menu_text, (long,), truncated) && long@.len() > 96 ==> truncated@
            == long@.take(93) + seq!['.', '.', '.'],
{
    law_menu_text_keeps_the_words(value@);
    lemma_menu_text_is_printable(value@);
    law_long_labels_end_with_dots(long@);
    if long@.len() > 96 {
        let cut = short_label(long@);
        assert(cut =~= cut.take(93) + cut.skip(93));
    }
}

/// Where a session is put among others: before the longest end of them that it has to
/// precede.
proof fn lemma_place_of_a_session(
    order: SessionOrder,
    sorted: Seq<SessionMenuEntry>,
    entry: SessionMenuEntry,
) -> (place: int)
    ensures
        0 <= place <= sorted.len(),
        order.with(sorted, entry) == sorted.take(place).push(entry) + sorted.skip(place),
        forall|l: int| place <= l < sorted.len() ==> order.precedes(entry, #[trigger] sorted[l]),
    decreases sorted.len(),
{
    if sorted.len() > 0 && order.precedes(entry, sorted.last()) {
        let init = sorted.drop_last();
        let place = lemma_place_of_a_session(order, init, entry);
        assert(init.take(place) =~= sorted.take(place));
        assert(order.with(sorted, entry) =~= sorted.take(place).push(entry) + sorted.skip(place));
        assert forall|l: int| place <= l < sorted.len() implies order.precedes(
            entry,
            #[trigger] sorted[l],
        ) by {
            if l < init.len() {
                assert(init[l] == sorted[l]);
            }
        }
        place
    } else {
        let place = sorted.len() as int;
        assert(order.with(sorted, entry) =~= sorted.take(place).push(entry) + sorted.skip(place));
        place
    }
}

/// Arranging sessions only moves them: `at` gives the place where each of them was.
/// Of two, the one that has to precede the other does; where neither has to, the one
/// that came first stays first.
pub proof fn law_arranging_is_a_stable_sort(
    order: SessionOrder,
    sessions: Seq<SessionMenuEntry>,
) -> (at: Seq<int>)
    ensures
        at.len() == sessions.len(),
        order.arrange(sessions).len() == sessions.len(),
        forall|k: int|
            0 <= k < at.len() ==> 0 <= #[trigger] at[k] < sessions.len() && order.arrange(
                sessions,
            )[k] == sessions[at[k]],
        forall|k: int, l: int| 0 <= k < l < at.len() ==> #[trigger] at[k] != #[trigger] at[l],
        forall|k: int, l: int|
            0 <= k < l < at.len() ==> order.precedes(
                sessions[#[trigger] at[k]],
                sessions[#[trigger] at[l]],
            ) || (!order.precedes(sessions[at[l]], sessions[at[k]]) && at[k] < at[l]),
    decreases sessions.len(),
{
    if sessions.len() == 0 {
        Seq::empty()
    } else {
        let init = sessions.drop_last();
        let last = sessions.last();
        let end = sessions.len() - 1;
        let sorted = order.arrange(init);
        let whole = order.arrange(sessions);
        let earlier = law_arranging_is_a_stable_sort(order, init);
        law_arranging_sorts(order, init);
        lemma_with_keeps_order(order, sorted, last);
        let place = lemma_place_of_a_session(order, sorted, last);
        let at = earlier.take(place).push(end) + earlier.skip(place);
        assert(whole == sorted.take(place).push(last) + sorted.skip(place));
        assert forall|k: int| 0 <= k < at.len() implies 0 <= #[trigger] at[k] < sessions.len()
            && whole[k] == sessions[at[k]] by {
            if k < place {
                assert(at[k] == earlier[k]);
                assert(init[earlier[k]] == sessions[earlier[k]]);
            } else if k > place {
                assert(at[k] == earlier[k - 1]);
                assert(init[earlier[k - 1]] == sessions[earlier[k - 1]]);
            }
        }
        assert forall|k: int, l: int| 0 <= k < l < at.len() implies #[trigger] at[k]
            != #[trigger] at[l] by {
            let a = if k < place {
                k
            } else {
                k - 1
            };
            let b = if l < place {
                l
            } else {
                l - 1
            };
            if k == place {
                assert(at[l] == earlier[b] && earlier[b] < init.len());
            } else if l == place {
                assert(at[k] == earlier[a] && earlier[a] < init.len());
            } else {
                assert(at[k] == earlier[a] && at[l] == earlier[b]);
                assert(earlier[a] != earlier[b]);
            }
        }
        assert forall|k: int, l: int| 0 <= k < l < at.len() implies order.precedes(
            sessions[#[trigger] at[k]],
            sessions[#[trigger] at[l]],
        ) || (!order.precedes(sessions[at[l]], sessions[at[k]]) && at[k] < at[l]) by {
            assert(whole[k] == sessions[at[k]] && whole[l] == sessions[at[l]]);
            if k == place {
                assert(whole[l] == sorted[l - 1]);
                assert(order.precedes(last, sorted[l - 1]));
            } else if l == place {
                assert(at[k] == earlier[k] && earlier[k] < init.len());
                assert(!order.precedes(whole[l], whole[k]));
            } else {
                let a = if k < place {
                    k
                } else {
                    k - 1
                };
                let b = if l < place {
                    l
                } else {
                    l - 1
                };
                assert(at[k] == earlier[a] && at[l] == earlier[b]);
                assert(init[earlier[a]] == sessions[at[k]] && init[earlier[b]] == sessions[at[l]]);
            }
        }
        at
    }
}

/// The sessions that are selected, by their places in what was given: the top level
/// starts with the most urgent, and goes on in the order given among those that are
/// equally urgent and equally recent. No session stands before one at the top level by
/// that order and is not there itself.
pub proof fn law_selected_places(
    sessions: &[SessionMenuEntry],
    top: Vec<&SessionMenuEntry>,
    history: Vec<&SessionMenuEntry>,
) -> (at: Seq<int>)
    requires
        call_ensures(select_sessions, (sessions,), (top, history)),
    ensures
        at.len() == sessions@.len(),
        forall|k: int| 0 <= k < at.len() ==> 0 <= #[trigger] at[k] < sessions@.len(),
        forall|k: int, l: int| 0 <= k < l < at.len() ==> #[trigger] at[k] != #[trigger] at[l],
        forall|k: int, l: int|
            0 <= k < l < at.len() ==> SessionOrder::Priority.precedes(
                sessions@[#[trigger] at[k]],
                sessions@[#[trigger] at[l]],
            ) || (!SessionOrder::Priority.precedes(sessions@[at[l]], sessions@[at[k]]) && at[k]
                < at[l]),
        top@.len() == (if at.len() < 5 {
            at.len()
        } else {
            5
        }),
        forall|k: int| 0 <= k < top@.len() ==> *(#[trigger] top@[k]) == sessions@[at[k]],
{
    let at = law_arranging_is_a_stable_sort(SessionOrder::Priority, sessions@);
    let ranked = SessionOrder::Priority.arrange(sessions@);
    law_selected_sessions(sessions, top, history);
    assert forall|k: int| 0 <= k < top@.len() implies *(#[trigger] top@[k])
        == sessions@[at[k]] by {
        assert(referred(top@)[k] == *top@[k]);
        assert(top_sessions(sessions@)[k] == ranked[k]);
        assert(0 <= at[k] < sessions@.len());
    }
    at
}

/// The sessions of the submenu, by their places among the others: the most recent
/// first, and the more urgent first among those that are equally recent.
pub proof fn law_history_places(sessions: Seq<SessionMenuEntry>) -> (at: Seq<int>)
    ensures
        at.len() == other_sessions(sessions).len(),
        forall|k: int| 0 <= k < at.len() ==> 0 <= #[trigger] at[k] < other_sessions(sessions).len(),
        forall|k: int, l: int| 0 <= k < l < at.len() ==> #[trigger] at[k] != #[trigger] at[l],
        forall|k: int, l: int|
            0 <= k < l < at.len() ==> {
                let earlier = other_sessions(sessions)[#[trigger] at[k]].updated_at;
                let later = other_sessions(sessions)[#[trigger] at[l]].updated_at;
                earlier > later || (earlier == later && at[k] < at[l])
            },
        history_sessions(sessions).len() == (if at.len() < 20 {
            at.len()
        } else {
            20
        }),
        forall|k: int|
            0 <= k < history_sessions(sessions).len() ==> #[trigger] history_sessions(sessions)[k]
                == other_sessions(sessions)[at[k]],
{
    let others = other_sessions(sessions);
    let recent = SessionOrder::Recency.arrange(others);
    let at = law_arranging_is_a_stable_sort(SessionOrder::Recency, others);
    assert forall|k: int, l: int| 0 <= k < l < at.len() implies {
        let earlier = others[#[trigger] at[k]].updated_at;
        let later = others[#[trigger] at[l]].updated_at;
        earlier > later || (earlier == later && at[k] < at[l])
    } by {
        assert(SessionOrder::Recency.precedes(others[at[k]], others[at[l]]) || (
        !SessionOrder::Recency.precedes(others[at[l]], others[at[k]]) && at[k] < at[l]));
    }
    assert forall|k: int| 0 <= k < history_sessions(sessions).len() implies
        #[trigger] history_sessions(sessions)[k] == others[at[k]] by {
        assert(0 <= at[k] < others.len());
        assert(history_sessions(sessions)[k] == recent[k]);
    }
    at
}

} // verus!
