//! Sessions and the snapshot they share.
//!
//! The active snapshot lives in one place, the hub. A session holds no snapshot
//! of its own: each query is answered from the hub's snapshot at the moment of the
//! query, so a snapshot published for one session answers all of them.

use vstd::prelude::*;
use adblock::Engine;
use crate::engine::{
    answers_alike, engine_of, generic_selectors, hidden_selectors, hides, network_blocked,
    network_verdict, page_selectors, Snapshot,
};
use crate::protocol::{
    format_network_reply, format_refresh_reply, format_style_reply, format_unknown_reply,
    network_reply, parse_command, parsed_command, refresh_reply, style_rule, unknown_reply,
    Command, CommandView,
};
use crate::text::string_views;

verus! {

/// What a session does in answer to a request line.
#[derive(Debug, PartialEq, Eq)]
pub enum Reaction {
    /// Write this text back and wait for the next line.
    Reply(String),
    /// Run a pass over the registry, forced or not, compile the lists again,
    /// publish the snapshot, and reply whether that was done.
    Refresh { force: bool },
    /// The request cannot be answered: close the session.
    Close,
}

/// A reaction, with its text as a sequence of characters.
pub enum ReactionView {
    Reply(Seq<char>),
    Refresh { force: bool },
    Close,
}

impl View for Reaction {
    type V = ReactionView;

    open spec fn view(&self) -> ReactionView {
        match self {
            Reaction::Reply(text) => ReactionView::Reply(text@),
            Reaction::Refresh { force } => ReactionView::Refresh { force: *force },
            Reaction::Close => ReactionView::Close,
        }
    }
}

/// Whether `text` is the reply to a cosmetic query: the style rule of selectors
/// that the snapshot hides on the page, given the ids and classes seen there.
pub open spec fn is_style_reply(
    engine: Engine,
    url: Seq<char>,
    ids: Seq<Seq<char>>,
    classes: Seq<Seq<char>>,
    text: Seq<char>,
) -> bool {
    exists|selectors: Seq<Seq<char>>|
        #[trigger] hides(engine, url, ids, classes, selectors) && text == style_rule(selectors)
}

/// Whether `reaction` is how a request line is answered from a snapshot.
///
/// A network query is answered by the snapshot's verdict, and closes the session
/// where the engine makes no request of its fields. A cosmetic query is answered
/// by the style rule of what the snapshot hides. `r` asks for a refresh, `u` for a
/// forced one. An unknown command gets its fixed reply, and a query that lacks a
/// field closes the session.
pub open spec fn answers(engine: Engine, line: Seq<char>, reaction: ReactionView) -> bool {
    match parsed_command(line) {
        CommandView::Network { url, source, kind } => match network_verdict(
            engine,
            url,
            source,
            kind,
        ) {
            Some(blocked) => reaction == ReactionView::Reply(network_reply(blocked)),
            None => reaction == ReactionView::Close,
        },
        CommandView::Cosmetic { url, ids, classes } => reaction matches ReactionView::Reply(text)
            && is_style_reply(engine, url, ids, classes, text),
        CommandView::Reload => reaction == ReactionView::Refresh { force: false },
        CommandView::Update => reaction == ReactionView::Refresh { force: true },
        CommandView::Unknown => reaction == ReactionView::Reply(unknown_reply()),
        CommandView::Malformed => reaction == ReactionView::Close,
    }
}

/// Answers a request line from a snapshot.
pub fn react(snapshot: &Snapshot, line: &str) -> (reaction: Reaction)
    ensures
        answers(snapshot.engine(), line@, reaction@),
{
    let command = parse_command(line);
    let ghost asked = command@;
    match command {
        Command::Network { url, source, kind } => {
            let reaction = match network_blocked(
                snapshot,
                url.as_str(),
                source.as_str(),
                kind.as_str(),
            ) {
                Some(blocked) => Reaction::Reply(format_network_reply(blocked)),
                None => Reaction::Close,
            };
            assert(asked == CommandView::Network { url: url@, source: source@, kind: kind@ });
            assert(answers(snapshot.engine(), line@, reaction@));
            reaction
        },
        Command::Cosmetic { url, ids, classes } => {
            let selectors = hidden_selectors(snapshot, url.as_str(), &ids, &classes);
            let reaction = Reaction::Reply(format_style_reply(&selectors));
            assert(asked == CommandView::Cosmetic {
                url: url@,
                ids: string_views(ids@),
                classes: string_views(classes@),
            });
            assert(hides(
                snapshot.engine(),
                url@,
                string_views(ids@),
                string_views(classes@),
                string_views(selectors@),
            ));
            assert(is_style_reply(
                snapshot.engine(),
                url@,
                string_views(ids@),
                string_views(classes@),
                style_rule(string_views(selectors@)),
            ));
            reaction
        },
        Command::Reload => Reaction::Refresh { force: false },
        Command::Update => Reaction::Refresh { force: true },
        Command::Unknown => Reaction::Reply(format_unknown_reply()),
        Command::Malformed => Reaction::Close,
    }
}

/// The place of the active snapshot, shared by all sessions.
pub struct Hub {
    snapshot: Snapshot,
    published: u64,
}

/// The count of publications after one more, as far as 64 bits count.
pub open spec fn one_more(count: u64) -> u64 {
    if count < u64::MAX {
        (count + 1) as u64
    } else {
        u64::MAX
    }
}

/// Whether `after` is the hub `before` with `engine` published: `engine` is the
/// active snapshot, and one more publication is counted.
pub open spec fn publishes(before: Hub, engine: Engine, after: Hub) -> bool {
    after.current() == engine && after.published() == one_more(before.published())
}

/// Whether `after` is what concluding a refresh makes of the hub `before`: the
/// new snapshot published where there is one, else the hub as it was.
pub open spec fn concludes(before: Hub, outcome: Option<Engine>, after: Hub) -> bool {
    match outcome {
        Some(engine) => publishes(before, engine, after),
        None => after.current() == before.current() && after.published() == before.published(),
    }
}

impl Hub {
    /// The engine of the active snapshot.
    pub closed spec fn current(&self) -> Engine {
        self.snapshot.engine()
    }

    /// How many snapshots were published after the first, as far as 64 bits
    /// count.
    pub closed spec fn published(&self) -> u64 {
        self.published
    }

    /// A hub whose active snapshot is `snapshot`.
    pub fn new(snapshot: Snapshot) -> (hub: Hub)
        ensures
            hub.current() == snapshot.engine(),
            hub.published() == 0,
    {
        Hub { snapshot, published: 0 }
    }

    /// Makes `snapshot` the active snapshot. The one before is dropped.
    pub fn publish(&mut self, snapshot: Snapshot)
        ensures
            publishes(*old(self), snapshot.engine(), *final(self)),
    {
        self.snapshot = snapshot;
        self.published = self.published.saturating_add(1);
    }

    /// Concludes a reload or an update. Where it gave a snapshot, that snapshot is
    /// published and the reply says that the command was carried out. Where it
    /// failed, the hub stays as it was and the reply says so.
    pub fn conclude_refresh(&mut self, outcome: Option<Snapshot>) -> (reply: String)
        ensures
            concludes(*old(self), engine_of(outcome), *final(self)),
            reply@ == refresh_reply(outcome is Some),
    {
        match outcome {
            Some(snapshot) => {
                self.publish(snapshot);
                format_refresh_reply(true)
            },
            None => format_refresh_reply(false),
        }
    }

    /// The active snapshot.
    pub fn snapshot(&self) -> (snapshot: &Snapshot)
        ensures
            snapshot.engine() == self.current(),
    {
        &self.snapshot
    }

    /// The number of snapshots published after the first.
    pub fn publications(&self) -> (count: u64)
        ensures
            count == self.published(),
    {
        self.published
    }
}

/// The state of one connection: active until a request closes it or its stream
/// ends, closed from then on.
pub struct Session {
    closed: bool,
}

impl Session {
    /// Whether the session still takes requests.
    pub closed spec fn is_active(&self) -> bool {
        !self.closed
    }

    /// The session of a connection that was just accepted.
    pub fn open() -> (session: Session)
        ensures
            session.is_active(),
    {
        Session { closed: false }
    }

    /// Whether the session still takes requests.
    pub fn active(&self) -> (active: bool)
        ensures
            active == self.is_active(),
    {
        !self.closed
    }

    /// Takes a request line. An active session answers it from the hub's active
    /// snapshot, and closes where the answer is to close. A closed session stays
    /// closed and answers nothing.
    pub fn on_line(&mut self, hub: &Hub, line: &str) -> (reaction: Reaction)
        ensures
            old(self).is_active() ==> answers(hub.current(), line@, reaction@),
            !old(self).is_active() ==> reaction@ == ReactionView::Close,
            final(self).is_active() == (old(self).is_active() && reaction@ != ReactionView::Close),
    {
        if self.closed {
            return Reaction::Close;
        }
        let reaction = react(hub.snapshot(), line);
        match reaction {
            Reaction::Close => {
                self.closed = true;
            },
            _ => {},
        }
        reaction
    }

    /// The stream ended or failed: the session is closed.
    pub fn on_end(&mut self)
        ensures
            !final(self).is_active(),
    {
        self.closed = true;
    }
}

/// Whether `reaction` is what `session` gives for a line when the hub is `hub`:
/// the relation that `Session::on_line` establishes.
pub open spec fn serves(session: Session, hub: Hub, line: Seq<char>, reaction: ReactionView) -> bool {
    if session.is_active() {
        answers(hub.current(), line, reaction)
    } else {
        reaction == ReactionView::Close
    }
}

/// Once a snapshot is published, every active session answers from it, whichever
/// session caused it to be published and however long the answering session has
/// been open: what an active session gives for a line after the publication is an
/// answer of the published snapshot.
pub proof fn law_published_snapshot_answers_all_sessions(
    before: Hub,
    after: Hub,
    engine: Engine,
    session: Session,
    line: Seq<char>,
    reaction: ReactionView,
)
    requires
        publishes(before, engine, after),
        session.is_active(),
        serves(session, after, line, reaction),
    ensures
        answers(engine, line, reaction),
{
}

/// A refresh that fails changes no answer: what an active session gives for a
/// line afterwards is an answer of the snapshot that was active before.
pub proof fn law_failed_refresh_changes_no_answer(
    before: Hub,
    after: Hub,
    session: Session,
    line: Seq<char>,
    reaction: ReactionView,
)
    requires
        concludes(before, None, after),
        session.is_active(),
        serves(session, after, line, reaction),
    ensures
        answers(before.current(), line, reaction),
{
}

/// Engines that answer alike give the same replies: what answers a line from one
/// answers it from the other. So a snapshot read back from the cache serves
/// every request as the snapshot did that was stored.
pub proof fn law_like_snapshots_reply_alike(
    copy: Engine,
    stored: Engine,
    line: Seq<char>,
    reaction: ReactionView,
)
    requires
        answers_alike(copy, stored),
        answers(copy, line, reaction),
    ensures
        answers(stored, line, reaction),
{
    match parsed_command(line) {
        CommandView::Network { url, source, kind } => {
            assert(network_verdict(copy, url, source, kind) == network_verdict(
                stored,
                url,
                source,
                kind,
            ));
        },
        CommandView::Cosmetic { url, ids, classes } => {
            let text = reaction->Reply_0;
            let selectors = choose|selectors: Seq<Seq<char>>|
                #[trigger] hides(copy, url, ids, classes, selectors) && text == style_rule(
                    selectors,
                );
            assert(generic_selectors(copy, url, ids, classes) == generic_selectors(
                stored,
                url,
                ids,
                classes,
            ));
            assert(page_selectors(copy, url) == page_selectors(stored, url));
            assert(hides(stored, url, ids, classes, selectors));
        },
        _ => {},
    }
}

/// Network queries are answered by the published snapshot's verdict alone: two
/// active sessions that ask the same query of the same hub get the same reply.
pub proof fn law_sessions_agree_on_network_queries(
    hub: Hub,
    a: Session,
    b: Session,
    line: Seq<char>,
    reaction_a: ReactionView,
    reaction_b: ReactionView,
)
    requires
        a.is_active(),
        b.is_active(),
        parsed_command(line) is Network,
        serves(a, hub, line, reaction_a),
        serves(b, hub, line, reaction_b),
    ensures
        reaction_a == reaction_b,
{
}

} // verus!
