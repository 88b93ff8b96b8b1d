//! The controller of a query: what to ask of the mail server next, and
//! when a search that found nothing is tried again.
//!
//! The controller does no I/O. It names a request; whoever drives it does
//! what the request says and hands back what came of it as an event. A
//! query connects, logs in, selects the mailbox, searches, and closes the
//! session. One attempt of the search is a search command and a fetch for
//! each match, in the order of the matches. An attempt that collects a
//! message ends the search. One that collects none is followed by another
//! while a deadline is set and not reached, after a wait of one interval
//! or of what is left until the deadline, whichever is shorter. A request
//! that fails, or content that is no message, ends the query at once.

use crate::error::{Error, ErrorView};
use crate::message::{Message, MessageView};
use crate::mime::{decode, decoded, parsed, result_view};
use crate::query::{search_string, Client, ClientView};
use crate::text::pair_views;
use crate::time::Time;
use vstd::prelude::*;

verus! {

/// What the controller waits for.
#[derive(Debug, Clone, Copy, PartialEq, Eq)]
pub enum Phase {
    /// The connection to the server.
    Connecting,
    /// The session that a login opens.
    LoggingIn,
    /// The mailbox to be selected.
    Selecting,
    /// The matches of a search that starts after `delay` nanoseconds.
    Searching { delay: u128 },
    /// The content of the message `uid`.
    Fetching { uid: u32 },
    /// The current time.
    Timing,
    /// The session to be closed.
    Closing,
}

/// What the driver is to do.
#[derive(Debug, PartialEq)]
pub enum Request {
    /// Connect to the server over an encrypted transport.
    Connect { domain: String, port: u16 },
    /// Log in.
    Login { username: String, password: String },
    /// Select the mailbox.
    Select { mailbox: String },
    /// Wait for `delay` nanoseconds, then search for `query`.
    Search { query: String, delay: u128 },
    /// Fetch the content of the message `uid`.
    Fetch { uid: u32 },
    /// Read the clock.
    Clock,
    /// Close the session.
    Close,
}

/// A request as character sequences.
pub enum RequestView {
    Connect { domain: Seq<char>, port: u16 },
    Login { username: Seq<char>, password: Seq<char> },
    Select { mailbox: Seq<char> },
    Search { query: Seq<char>, delay: u128 },
    Fetch { uid: u32 },
    Clock,
    Close,
}

impl View for Request {
    type V = RequestView;

    open spec fn view(&self) -> RequestView {
        match self {
            Request::Connect { domain, port } => RequestView::Connect {
                domain: domain@,
                port: *port,
            },
            Request::Login { username, password } => RequestView::Login {
                username: username@,
                password: password@,
            },
            Request::Select { mailbox } => RequestView::Select { mailbox: mailbox@ },
            Request::Search { query, delay } => RequestView::Search {
                query: query@,
                delay: *delay,
            },
            Request::Fetch { uid } => RequestView::Fetch { uid: *uid },
            Request::Clock => RequestView::Clock,
            Request::Close => RequestView::Close,
        }
    }
}

/// What came of a request.
#[derive(Debug, PartialEq)]
pub enum Event {
    /// The connection, the login, the selection or the closing succeeded.
    Ready,
    /// The search matched these messages, in this order.
    Matches(Vec<u32>),
    /// The fetch brought this content, or the server had none.
    Content(Option<Vec<u8>>),
    /// The clock reads this time.
    Clock(Time),
    /// The request failed.
    Failed(Error),
}

/// An event as sequences.
pub enum EventView {
    Ready,
    Matches(Seq<u32>),
    Content(Option<Seq<u8>>),
    Clock(Time),
    Failed(ErrorView),
}

impl View for Event {
    type V = EventView;

    open spec fn view(&self) -> EventView {
        match self {
            Event::Ready => EventView::Ready,
            Event::Matches(ids) => EventView::Matches(ids@),
            Event::Content(Some(bytes)) => EventView::Content(Some(bytes@)),
            Event::Content(None) => EventView::Content(None),
            Event::Clock(now) => EventView::Clock(*now),
            Event::Failed(error) => EventView::Failed(error@),
        }
    }
}

/// The bodies of the items of a fetch as byte sequences.
pub open spec fn body_views(items: Seq<Option<Vec<u8>>>) -> Seq<Option<Seq<u8>>> {
    Seq::new(
        items.len(),
        |i: int|
            match items[i] {
                Some(body) => Some(body@),
                None => None,
            },
    )
}

/// The content that a fetch brought: the body of its first item; no
/// content where it brought no item, or its first item has no body.
pub open spec fn content(items: Seq<Option<Seq<u8>>>) -> Option<Seq<u8>> {
    if items.len() == 0 {
        None
    } else {
        items[0]
    }
}

impl Event {
    /// What came of a fetch that brought `items`, each with its body if it
    /// has one: the content of the first item. A fetch that brought no
    /// item, or a first item without a body, is a fetch without content.
    pub fn fetched(items: Vec<Option<Vec<u8>>>) -> (event: Event)
        ensures
            event@ == EventView::Content(content(body_views(items@))),
    {
        let mut items = items;
        if items.len() == 0 {
            Event::Content(None)
        } else {
            Event::Content(items.swap_remove(0))
        }
    }
}

/// A query in progress.
#[derive(Debug)]
pub struct Search {
    client: Client,
    mailbox: String,
    query: String,
    deadline: Option<Time>,
    interval: u128,
    phase: Phase,
    ids: Vec<u32>,
    next: usize,
    found: Vec<Message>,
}

/// A query in progress as sequences.
pub struct SearchView {
    /// Who asks, and of which server.
    pub client: ClientView,
    /// The mailbox that is searched.
    pub mailbox: Seq<char>,
    /// The search string.
    pub query: Seq<char>,
    /// The time after which no search is tried again.
    pub deadline: Option<Time>,
    /// The nanoseconds to wait between two attempts.
    pub interval: u128,
    pub phase: Phase,
    /// The matches of the current attempt.
    pub ids: Seq<u32>,
    /// How many of the matches have been asked for.
    pub next: int,
    /// The messages of the current attempt.
    pub found: Seq<MessageView>,
}

/// The messages as character sequences.
pub open spec fn message_views(messages: Seq<Message>) -> Seq<MessageView> {
    Seq::new(messages.len(), |i: int| messages[i]@)
}

/// A query after one event: it goes on, or it is over.
#[derive(Debug)]
pub enum Step {
    Next(Search),
    Done(Result<Vec<Message>, Error>),
}

/// A step as sequences.
pub enum StepView {
    Next(SearchView),
    Done(Result<Seq<MessageView>, ErrorView>),
}

impl View for Step {
    type V = StepView;

    open spec fn view(&self) -> StepView {
        match self {
            Step::Next(search) => StepView::Next(search@),
            Step::Done(Ok(messages)) => StepView::Done(Ok(message_views(messages@))),
            Step::Done(Err(error)) => StepView::Done(Err(error@)),
        }
    }
}

/// The shorter of one interval and the time from `now` to `deadline`.
pub open spec fn wait(interval: u128, now: Time, deadline: Time) -> u128 {
    if now.0 < deadline.0 && deadline.0 - now.0 < interval {
        (deadline.0 - now.0) as u128
    } else {
        interval
    }
}

impl SearchView {
    /// The first state of a query.
    pub open spec fn start(
        client: ClientView,
        mailbox: Seq<char>,
        query: Seq<char>,
        deadline: Option<Time>,
        interval: u128,
    ) -> SearchView {
        SearchView {
            client,
            mailbox,
            query,
            deadline,
            interval,
            phase: Phase::Connecting,
            ids: Seq::empty(),
            next: 0,
            found: Seq::empty(),
        }
    }

    /// What the driver is to do in this state.
    pub open spec fn request(self) -> RequestView {
        match self.phase {
            Phase::Connecting => RequestView::Connect {
                domain: self.client.domain,
                port: self.client.port,
            },
            Phase::LoggingIn => RequestView::Login {
                username: self.client.username,
                password: self.client.password,
            },
            Phase::Selecting => RequestView::Select { mailbox: self.mailbox },
            Phase::Searching { delay } => RequestView::Search { query: self.query, delay },
            Phase::Fetching { uid } => RequestView::Fetch { uid },
            Phase::Timing => RequestView::Clock,
            Phase::Closing => RequestView::Close,
        }
    }

    /// The state in which the session is closed and `found` is held as
    /// the result.
    pub open spec fn closing(self, found: Seq<MessageView>) -> SearchView {
        SearchView { phase: Phase::Closing, found, ..self }
    }

    /// After a request without an answer of its own has succeeded: the
    /// next of connecting, logging in, selecting and searching; the end of
    /// the query with what was found, where the session was closed.
    pub open spec fn readied(self) -> StepView {
        match self.phase {
            Phase::Connecting => StepView::Next(SearchView { phase: Phase::LoggingIn, ..self }),
            Phase::LoggingIn => StepView::Next(SearchView { phase: Phase::Selecting, ..self }),
            Phase::Selecting => StepView::Next(
                SearchView { phase: Phase::Searching { delay: 0 }, ..self },
            ),
            Phase::Closing => StepView::Done(Ok(self.found)),
            _ => StepView::Next(self),
        }
    }

    /// Where a search stands when a match is done with: at the next match;
    /// or, with all matches done, at its end if a message was collected or
    /// no deadline is set, and else before a look at the clock.
    pub open spec fn settle(self) -> StepView {
        if 0 <= self.next < self.ids.len() {
            StepView::Next(
                SearchView {
                    phase: Phase::Fetching { uid: self.ids[self.next] },
                    next: self.next + 1,
                    ..self
                },
            )
        } else if self.found.len() > 0 {
            StepView::Next(self.closing(self.found))
        } else if self.deadline is Some {
            StepView::Next(SearchView { phase: Phase::Timing, ..self })
        } else {
            StepView::Next(self.closing(Seq::empty()))
        }
    }

    /// After the matches of a search have come.
    pub open spec fn matched(self, ids: Seq<u32>) -> StepView {
        SearchView { ids, next: 0, found: Seq::empty(), ..self }.settle()
    }

    /// After a fetch whose content was decoded, or could not be. An error
    /// ends the query; a message is collected.
    pub open spec fn collected(self, outcome: Result<MessageView, ErrorView>) -> StepView {
        if self.phase is Fetching {
            match outcome {
                Ok(message) => SearchView { found: self.found.push(message), ..self }.settle(),
                Err(error) => StepView::Done(Err(error)),
            }
        } else {
            StepView::Next(self)
        }
    }

    /// After a look at the clock: another attempt while the deadline is not
    /// reached, the end of the search with no message otherwise.
    pub open spec fn timed(self, now: Time) -> StepView {
        match self.deadline {
            Some(deadline) if now.0 < deadline.0 => StepView::Next(
                SearchView {
                    phase: Phase::Searching { delay: wait(self.interval, now, deadline) },
                    ids: Seq::empty(),
                    next: 0,
                    found: Seq::empty(),
                    ..self
                },
            ),
            _ => StepView::Next(self.closing(Seq::empty())),
        }
    }

    /// The query after `event`. A failure ends it. An event that does not
    /// answer the request of the state leaves the state as it is.
    pub open spec fn step(self, event: EventView) -> StepView {
        match event {
            EventView::Failed(error) => StepView::Done(Err(error)),
            EventView::Ready => self.readied(),
            EventView::Matches(ids) => if self.phase is Searching {
                self.matched(ids)
            } else {
                StepView::Next(self)
            },
            EventView::Content(content) => if self.phase is Fetching {
                match content {
                    Some(bytes) => self.collected(decoded(parsed(bytes))),
                    None => self.settle(),
                }
            } else {
                StepView::Next(self)
            },
            EventView::Clock(now) => if self.phase is Timing {
                self.timed(now)
            } else {
                StepView::Next(self)
            },
        }
    }
}

impl View for Search {
    type V = SearchView;

    closed spec fn view(&self) -> SearchView {
        SearchView {
            client: self.client@,
            mailbox: self.mailbox@,
            query: self.query@,
            deadline: self.deadline,
            interval: self.interval,
            phase: self.phase,
            ids: self.ids@,
            next: self.next as int,
            found: message_views(self.found@),
        }
    }
}

impl Search {
    /// What the driver is to do now.
    pub fn request(&self) -> (request: Request)
        ensures
            request@ == self@.request(),
    {
        match self.phase {
            Phase::Connecting => Request::Connect {
                domain: self.client.domain.clone(),
                port: self.client.port,
            },
            Phase::LoggingIn => Request::Login {
                username: self.client.username.clone(),
                password: self.client.password.clone(),
            },
            Phase::Selecting => Request::Select { mailbox: self.mailbox.clone() },
            Phase::Searching { delay } => Request::Search { query: self.query.clone(), delay },
            Phase::Fetching { uid } => Request::Fetch { uid },
            Phase::Timing => Request::Clock,
            Phase::Closing => Request::Close,
        }
    }

    fn at(self, phase: Phase) -> (search: Search)
        ensures
            search@ == (SearchView { phase, ..self@ }),
    {
        Search {
            client: self.client,
            mailbox: self.mailbox,
            query: self.query,
            deadline: self.deadline,
            interval: self.interval,
            phase,
            ids: self.ids,
            next: self.next,
            found: self.found,
        }
    }

    fn readied(self) -> (step: Step)
        ensures
            step@ == self@.readied(),
    {
        match self.phase {
            Phase::Connecting => Step::Next(self.at(Phase::LoggingIn)),
            Phase::LoggingIn => Step::Next(self.at(Phase::Selecting)),
            Phase::Selecting => Step::Next(self.at(Phase::Searching { delay: 0 })),
            Phase::Closing => Step::Done(Ok(self.found)),
            _ => Step::Next(self),
        }
    }

    fn settle(self) -> (step: Step)
        ensures
            step@ == self@.settle(),
    {
        if self.next < self.ids.len() {
            let uid = self.ids[self.next];
            Step::Next(
                Search {
                    client: self.client,
                    mailbox: self.mailbox,
                    query: self.query,
                    deadline: self.deadline,
                    interval: self.interval,
                    phase: Phase::Fetching { uid },
                    ids: self.ids,
                    next: self.next + 1,
                    found: self.found,
                },
            )
        } else if self.found.len() > 0 {
            Step::Next(self.at(Phase::Closing))
        } else if self.deadline.is_some() {
            Step::Next(self.at(Phase::Timing))
        } else {
            assert(self@.found =~= Seq::empty());
            Step::Next(self.at(Phase::Closing))
        }
    }

    fn matched(self, ids: Vec<u32>) -> (step: Step)
        ensures
            step@ == self@.matched(ids@),
    {
        let found: Vec<Message> = Vec::new();
        assert(message_views(found@) =~= Seq::empty());
        Search {
            client: self.client,
            mailbox: self.mailbox,
            query: self.query,
            deadline: self.deadline,
            interval: self.interval,
            phase: self.phase,
            ids,
            next: 0,
            found,
        }.settle()
    }

    /// The query after a fetch whose content was decoded into `outcome`.
    /// Outside of a fetch the query stays as it is.
    pub fn collected(self, outcome: Result<Message, Error>) -> (step: Step)
        ensures
            step@ == self@.collected(result_view(outcome)),
    {
        match self.phase {
            Phase::Fetching { .. } => match outcome {
                Ok(message) => {
                    let mut found = self.found;
                    let ghost before = message_views(found@);
                    found.push(message);
                    assert(message_views(found@) =~= before.push(message@));
                    Search {
                        client: self.client,
                        mailbox: self.mailbox,
                        query: self.query,
                        deadline: self.deadline,
                        interval: self.interval,
                        phase: self.phase,
                        ids: self.ids,
                        next: self.next,
                        found,
                    }.settle()
                },
                Err(error) => Step::Done(Err(error)),
            },
            _ => Step::Next(self),
        }
    }

    fn timed(self, now: Time) -> (step: Step)
        ensures
            step@ == self@.timed(now),
    {
        let none: Vec<Message> = Vec::new();
        assert(message_views(none@) =~= Seq::empty());
        let delay = match self.deadline {
            Some(deadline) => if now.before(&deadline) {
                let left = now.until(&deadline);
                Some(if left < self.interval { left } else { self.interval })
            } else {
                None
            },
            None => None,
        };
        let (phase, ids) = match delay {
            Some(delay) => (Phase::Searching { delay }, Vec::new()),
            None => (Phase::Closing, self.ids),
        };
        Step::Next(
            Search {
                client: self.client,
                mailbox: self.mailbox,
                query: self.query,
                deadline: self.deadline,
                interval: self.interval,
                phase,
                ids,
                next: if delay.is_some() { 0 } else { self.next },
                found: none,
            },
        )
    }

    /// The query after `event`: what came of the last request.
    pub fn step(self, event: Event) -> (step: Step)
        ensures
            step@ == self@.step(event@),
    {
        match event {
            Event::Failed(error) => Step::Done(Err(error)),
            Event::Ready => self.readied(),
            Event::Matches(ids) => match self.phase {
                Phase::Searching { .. } => self.matched(ids),
                _ => Step::Next(self),
            },
            Event::Content(content) => match self.phase {
                Phase::Fetching { .. } => match content {
                    Some(bytes) => {
                        let outcome = decode(bytes.as_slice());
                        self.collected(outcome)
                    },
                    None => self.settle(),
                },
                _ => Step::Next(self),
            },
            Event::Clock(now) => match self.phase {
                Phase::Timing => self.timed(now),
                _ => Step::Next(self),
            },
        }
    }
}

impl Client {
    /// A query of `mailbox` for the criteria, to be driven to its end. The
    /// search is tried once where `wait` is `None`, and else again and
    /// again until a message is found or the time `wait` is reached,
    /// `interval` nanoseconds apart.
    pub fn find(
        &self,
        mailbox: &str,
        query: &[(String, String)],
        wait: Option<Time>,
        interval: u128,
    ) -> (search: Search)
        ensures
            search@ == SearchView::start(
                self@,
                mailbox@,
                search_string(pair_views(query@)),
                wait,
                interval,
            ),
    {
        let found: Vec<Message> = Vec::new();
        assert(message_views(found@) =~= Seq::empty());
        Search {
            client: Client {
                username: self.username.clone(),
                password: self.password.clone(),
                domain: self.domain.clone(),
                port: self.port,
            },
            mailbox: mailbox.to_owned(),
            query: Client::fmt_query(query),
            deadline: wait,
            interval,
            phase: Phase::Connecting,
            ids: Vec::new(),
            next: 0,
            found,
        }
    }
}

} // verus!
