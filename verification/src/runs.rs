//! Runs of a query: what holds of the states that a query passes through,
//! and of what it ends with.

use crate::error::ErrorView;
use crate::message::MessageView;
use crate::mime::{decoded, parsed};
use crate::query::ClientView;
use crate::search::{content, EventView, Phase, RequestView, SearchView, StepView};
use crate::time::Time;
use vstd::prelude::*;

verus! {

impl SearchView {
    /// What holds of every state that a query passes through: a message
    /// is held only while the matches of an attempt are fetched and while
    /// the session is closed, and the match that is asked for is the one
    /// before `next`.
    pub open spec fn wf(self) -> bool {
        &&& 0 <= self.next <= self.ids.len()
        &&& !(self.phase is Fetching || self.phase is Closing) ==> self.found.len() == 0
        &&& self.phase matches Phase::Fetching { uid } ==> self.next >= 1 && uid
            == self.ids[self.next - 1]
    }

    /// The state after the events, one after the other; the end of the
    /// query where one of them ends it.
    pub open spec fn run(self, events: Seq<EventView>) -> StepView
        decreases events.len(),
    {
        if events.len() == 0 {
            StepView::Next(self)
        } else {
            match self.step(events.first()) {
                StepView::Next(next) => next.run(events.drop_first()),
                StepView::Done(result) => StepView::Done(result),
            }
        }
    }

    /// How many times the events make the search start a new attempt after
    /// a look at the clock.
    pub open spec fn retries(self, events: Seq<EventView>) -> nat
        decreases events.len(),
    {
        if events.len() == 0 {
            0
        } else {
            match self.step(events.first()) {
                StepView::Next(next) => next.retries(events.drop_first()) + if self.phase is Timing
                    && next.phase is Searching {
                    1nat
                } else {
                    0nat
                },
                StepView::Done(_) => 0,
            }
        }
    }
}

/// Whether the clock reads `deadline` or later in each of the events that
/// are a look at the clock.
pub open spec fn all_late(events: Seq<EventView>, deadline: Time) -> bool {
    forall|i: int|
        0 <= i < events.len() && (#[trigger] events[i]) is Clock ==> events[i]->Clock_0.0
            >= deadline.0
}

/// The contents as the events of their fetches.
pub open spec fn fetches(contents: Seq<Option<Seq<u8>>>) -> Seq<EventView> {
    Seq::new(contents.len(), |i: int| EventView::Content(contents[i]))
}

/// The three events that open a session: connected, logged in, selected.
pub open spec fn opening() -> Seq<EventView> {
    seq![EventView::Ready, EventView::Ready, EventView::Ready]
}

/// The messages of the contents that are there, in the order of the
/// contents.
pub open spec fn gathered(contents: Seq<Option<Seq<u8>>>) -> Seq<MessageView>
    decreases contents.len(),
{
    if contents.len() == 0 {
        Seq::empty()
    } else {
        match contents.first() {
            Some(bytes) => match decoded(parsed(bytes)) {
                Ok(message) => seq![message] + gathered(contents.drop_first()),
                Err(_) => gathered(contents.drop_first()),
            },
            None => gathered(contents.drop_first()),
        }
    }
}

/// Whether each of the contents that is there can be decoded.
pub open spec fn all_decode(contents: Seq<Option<Seq<u8>>>) -> bool {
    forall|i: int|
        0 <= i < contents.len() && (#[trigger] contents[i]) is Some ==> decoded(
            parsed(contents[i]->Some_0),
        ) is Ok
}

/// A query starts well formed, with a request to connect.
pub proof fn lemma_start(
    client: ClientView,
    mailbox: Seq<char>,
    query: Seq<char>,
    deadline: Option<Time>,
    interval: u128,
)
    ensures
        SearchView::start(client, mailbox, query, deadline, interval).wf(),
        SearchView::start(client, mailbox, query, deadline, interval).request()
            == (RequestView::Connect { domain: client.domain, port: client.port }),
{
}

/// A query opens its session in three steps: it connects, logs in and
/// selects the mailbox, and then asks for a first search without delay.
pub proof fn lemma_opening(s: SearchView)
    requires
        s.phase is Connecting,
    ensures
        s.step(EventView::Ready) is Next,
        s.step(EventView::Ready)->Next_0.request() == (RequestView::Login {
            username: s.client.username,
            password: s.client.password,
        }),
        s.run(opening().take(2)) is Next,
        s.run(opening().take(2))->Next_0.request() == (RequestView::Select {
            mailbox: s.mailbox,
        }),
        s.run(opening()) == StepView::Next(
            SearchView { phase: Phase::Searching { delay: 0 }, ..s },
        ),
{
    let one = SearchView { phase: Phase::LoggingIn, ..s };
    let two = SearchView { phase: Phase::Selecting, ..s };
    let three = SearchView { phase: Phase::Searching { delay: 0 }, ..s };
    let events = opening();
    assert(events.drop_first() =~= seq![EventView::Ready, EventView::Ready]);
    assert(events.drop_first().drop_first() =~= seq![EventView::Ready]);
    assert(events.drop_first().drop_first().drop_first() =~= Seq::<EventView>::empty());
    assert(three.run(Seq::<EventView>::empty()) == StepView::Next(three));
    assert(two.run(seq![EventView::Ready]) == StepView::Next(three));
    assert(one.run(seq![EventView::Ready, EventView::Ready]) == StepView::Next(three));
    let front = events.take(2);
    assert(front =~= seq![EventView::Ready, EventView::Ready]);
    assert(front.drop_first() =~= seq![EventView::Ready]);
    assert(front.drop_first().drop_first() =~= Seq::<EventView>::empty());
    assert(two.run(Seq::<EventView>::empty()) == StepView::Next(two));
    assert(one.run(seq![EventView::Ready]) == StepView::Next(two));
}

/// A step keeps a query well formed, and keeps who asks, what is searched
/// and searched for, the deadline and the interval.
pub proof fn lemma_step_keeps(s: SearchView, event: EventView)
    requires
        s.wf(),
        s.step(event) is Next,
    ensures
        s.step(event)->Next_0.wf(),
        s.step(event)->Next_0.client == s.client,
        s.step(event)->Next_0.mailbox == s.mailbox,
        s.step(event)->Next_0.query == s.query,
        s.step(event)->Next_0.deadline == s.deadline,
        s.step(event)->Next_0.interval == s.interval,
{
}

/// A query ends well only by closing its session, and then with the
/// messages of the attempt that ended the search.
pub proof fn lemma_end(s: SearchView, event: EventView)
    requires
        s.step(event) matches StepView::Done(Ok(_)),
    ensures
        s.phase is Closing,
        event is Ready,
        s.step(event) == StepView::Done(Ok(s.found)),
{
}

/// A search ends with messages where its last attempt collected some. It
/// ends with none only where no attempt is to follow: no deadline is set,
/// or the clock reads the deadline or later.
pub proof fn lemma_search_ends(s: SearchView, event: EventView)
    requires
        s.wf(),
        !(s.phase is Closing),
        s.step(event) matches StepView::Next(next) && next.phase is Closing,
    ensures
        s.step(event)->Next_0.found.len() > 0 || s.deadline is None || (s.phase is Timing
            && event is Clock && event->Clock_0.0 >= s.deadline.unwrap().0),
{
}

/// A new attempt starts only after a look at the clock that reads a time
/// before the deadline. Its search waits no longer than one interval and
/// no longer than until the deadline, and a full interval where that much
/// time is left.
pub proof fn lemma_retry_needs_time_left(s: SearchView, event: EventView)
    requires
        !(s.phase is Searching),
        !(s.phase is Selecting),
        s.step(event) matches StepView::Next(next) && next.phase is Searching,
    ensures
        s.phase is Timing,
        s.deadline is Some,
        event is Clock,
        event->Clock_0.0 < s.deadline.unwrap().0,
        s.step(event)->Next_0.phase->delay <= s.interval,
        event->Clock_0.0 + s.step(event)->Next_0.phase->delay <= s.deadline.unwrap().0,
        event->Clock_0.0 + s.interval <= s.deadline.unwrap().0 ==> s.step(
            event,
        )->Next_0.phase->delay == s.interval,
{
}

/// With no deadline, or with the clock at the deadline or later, a look at
/// the clock ends the search with no message.
pub proof fn lemma_deadline_reached(s: SearchView, now: Time)
    requires
        s.phase is Timing,
        s.deadline matches Some(deadline) ==> now.0 >= deadline.0,
    ensures
        s.step(EventView::Clock(now)) == StepView::Next(s.closing(Seq::empty())),
{
}

/// With the deadline in the past a search makes one attempt: whatever the
/// events, none of them makes it start another.
pub proof fn lemma_one_attempt_past_the_deadline(
    s: SearchView,
    events: Seq<EventView>,
    deadline: Time,
)
    requires
        s.deadline == Some(deadline),
        all_late(events, deadline),
    ensures
        s.retries(events) == 0,
    decreases events.len(),
{
    if events.len() > 0 {
        let event = events.first();
        assert(events[0] == event);
        match s.step(event) {
            StepView::Next(next) => {
                let rest = events.drop_first();
                assert forall|i: int|
                    0 <= i < rest.len() && (#[trigger] rest[i]) is Clock implies rest[i]->Clock_0.0
                    >= deadline.0 by {
                    assert(rest[i] == events[i + 1]);
                }
                lemma_one_attempt_past_the_deadline(next, rest, deadline);
            },
            StepView::Done(_) => {},
        }
    }
}

/// Running through events one after the other is running through the
/// first of them and then, where the query goes on, through the rest.
pub proof fn lemma_run_concat(s: SearchView, front: Seq<EventView>, back: Seq<EventView>)
    ensures
        s.run(front + back) == match s.run(front) {
            StepView::Next(next) => next.run(back),
            StepView::Done(result) => StepView::Done(result),
        },
    decreases front.len(),
{
    if front.len() == 0 {
        assert(front + back =~= back);
    } else {
        let all = front + back;
        assert(all.first() == front.first());
        assert(all.drop_first() =~= front.drop_first() + back);
        match s.step(front.first()) {
            StepView::Next(next) => {
                lemma_run_concat(next, front.drop_first(), back);
            },
            StepView::Done(_) => {},
        }
    }
}

/// While the matches of an attempt are fetched, the contents that are
/// there are decoded and collected in their order, and those that are not
/// there are skipped.
pub proof fn lemma_fetching(s: SearchView, contents: Seq<Option<Seq<u8>>>)
    requires
        s.wf(),
        s.phase is Fetching,
        contents.len() == s.ids.len() - s.next + 1,
        all_decode(contents),
    ensures
        s.run(fetches(contents)) == (SearchView {
            next: s.ids.len() as int,
            found: s.found + gathered(contents),
            ..s
        }).settle(),
    decreases contents.len(),
{
    let events = fetches(contents);
    let rest = contents.drop_first();
    assert(events.first() == EventView::Content(contents[0]));
    assert(events.drop_first() =~= fetches(rest));
    let found = match contents.first() {
        Some(bytes) => s.found.push(decoded(parsed(bytes))->Ok_0),
        None => s.found,
    };
    let fetched = SearchView { found, ..s };
    assert(s.step(events.first()) == fetched.settle());
    assert(found + gathered(rest) =~= s.found + gathered(contents));
    assert forall|i: int| 0 <= i < rest.len() && (#[trigger] rest[i]) is Some implies decoded(
        parsed(rest[i]->Some_0),
    ) is Ok by {
        assert(rest[i] == contents[i + 1]);
    }
    if s.next < s.ids.len() {
        let next = fetched.settle()->Next_0;
        lemma_fetching(next, rest);
    } else {
        assert(rest.len() == 0);
        assert(gathered(rest) =~= Seq::<MessageView>::empty());
        assert(found + gathered(rest) =~= found);
        let next = fetched.settle()->Next_0;
        assert(next.run(fetches(rest)) == StepView::Next(next));
    }
}

/// The state after one attempt of a search in the state `s`: the session
/// is closed if the attempt collected `found` and that is anything, or no
/// deadline is set; else the clock is looked at.
pub open spec fn attempted(s: SearchView, ids: Seq<u32>, found: Seq<MessageView>) -> SearchView {
    let done = SearchView { ids, next: ids.len() as int, found: Seq::empty(), ..s };
    if found.len() > 0 {
        done.closing(found)
    } else if s.deadline is Some {
        SearchView { phase: Phase::Timing, ..done }
    } else {
        done.closing(Seq::empty())
    }
}

/// One attempt: after a search has matched, the contents of the matches
/// are fetched in the order of the matches. What can be decoded of them is
/// collected in that order, and is the result if it is anything at all.
pub proof fn lemma_attempt(s: SearchView, ids: Seq<u32>, contents: Seq<Option<Seq<u8>>>)
    requires
        s.wf(),
        s.phase is Searching,
        contents.len() == ids.len(),
        all_decode(contents),
    ensures
        s.run(seq![EventView::Matches(ids)] + fetches(contents)) == StepView::Next(
            attempted(s, ids, gathered(contents)),
        ),
{
    let events = seq![EventView::Matches(ids)] + fetches(contents);
    assert(events.first() == EventView::Matches(ids));
    assert(events.drop_first() =~= fetches(contents));
    let matched = SearchView { ids, next: 0, found: Seq::empty(), ..s };
    assert(s.step(events.first()) == matched.settle());
    let next = matched.settle()->Next_0;
    if ids.len() > 0 {
        lemma_fetching(next, contents);
        assert(next.found + gathered(contents) =~= gathered(contents));
    } else {
        assert(gathered(contents) =~= Seq::<MessageView>::empty());
        assert(next.run(fetches(contents)) == StepView::Next(next));
    }
}

/// A whole query whose first attempt finds something: the session is
/// opened, the matches are fetched in their order, the session is closed,
/// and what could be decoded is the result, in the order of the matches.
pub proof fn lemma_query(s: SearchView, ids: Seq<u32>, contents: Seq<Option<Seq<u8>>>)
    requires
        s.wf(),
        s.phase is Connecting,
        contents.len() == ids.len(),
        all_decode(contents),
        gathered(contents).len() > 0,
    ensures
        s.run(
            opening() + (seq![EventView::Matches(ids)] + fetches(contents)) + seq![
                EventView::Ready,
            ],
        ) == StepView::Done(Ok(gathered(contents))),
{
    let attempt = seq![EventView::Matches(ids)] + fetches(contents);
    let close = seq![EventView::Ready];
    lemma_opening(s);
    let searching = SearchView { phase: Phase::Searching { delay: 0 }, ..s };
    lemma_attempt(searching, ids, contents);
    let closing = attempted(searching, ids, gathered(contents));
    assert(close.drop_first() =~= Seq::<EventView>::empty());
    assert(closing.run(close) == StepView::Done(Ok(gathered(contents))));
    lemma_run_concat(s, opening(), attempt);
    lemma_run_concat(s, opening() + attempt, close);
}

/// A second attempt: where the first attempt collects nothing and the
/// clock then reads a time before the deadline, the search is tried
/// again, and what the second attempt collects is the result.
pub proof fn lemma_second_attempt(
    s: SearchView,
    first_ids: Seq<u32>,
    first_contents: Seq<Option<Seq<u8>>>,
    now: Time,
    ids: Seq<u32>,
    contents: Seq<Option<Seq<u8>>>,
)
    requires
        s.wf(),
        s.phase is Searching,
        s.deadline matches Some(deadline) && now.0 < deadline.0,
        first_contents.len() == first_ids.len(),
        all_decode(first_contents),
        gathered(first_contents).len() == 0,
        contents.len() == ids.len(),
        all_decode(contents),
        gathered(contents).len() > 0,
    ensures
        s.run(
            (seq![EventView::Matches(first_ids)] + fetches(first_contents)) + seq![
                EventView::Clock(now),
            ] + (seq![EventView::Matches(ids)] + fetches(contents)) + seq![EventView::Ready],
        ) == StepView::Done(Ok(gathered(contents))),
{
    let first = seq![EventView::Matches(first_ids)] + fetches(first_contents);
    let look = seq![EventView::Clock(now)];
    let second = seq![EventView::Matches(ids)] + fetches(contents);
    let close = seq![EventView::Ready];
    lemma_attempt(s, first_ids, first_contents);
    let timing = attempted(s, first_ids, gathered(first_contents));
    let again = timing.step(EventView::Clock(now))->Next_0;
    assert(look.drop_first() =~= Seq::<EventView>::empty());
    assert(again.run(look.drop_first()) == StepView::Next(again));
    assert(timing.run(look) == StepView::Next(again));
    lemma_attempt(again, ids, contents);
    let closing = attempted(again, ids, gathered(contents));
    assert(close.drop_first() =~= Seq::<EventView>::empty());
    assert(closing.run(close) == StepView::Done(Ok(gathered(contents))));
    lemma_run_concat(s, first, look);
    lemma_run_concat(s, first + look, second);
    lemma_run_concat(s, first + look + second, close);
}

/// A match without content is skipped: where the fetch brings no item,
/// or a first item without a body, nothing is decoded and nothing
/// collected, and the search goes on as after any other match.
pub proof fn lemma_no_content_is_skipped(s: SearchView, items: Seq<Option<Seq<u8>>>)
    requires
        s.phase is Fetching,
        items.len() == 0 || items[0] is None,
    ensures
        content(items) is None,
        s.step(EventView::Content(content(items))) == s.settle(),
        s.step(EventView::Content(content(items))) matches StepView::Next(next) && next.found
            == s.found,
{
}

/// A search whose only match has no content finds nothing: with no
/// deadline set the query closes its session and ends with no message.
pub proof fn lemma_only_match_without_content(
    s: SearchView,
    uid: u32,
    items: Seq<Option<Seq<u8>>>,
)
    requires
        s.wf(),
        s.phase is Searching,
        s.deadline is None,
        items.len() == 0 || items[0] is None,
    ensures
        s.run(
            seq![EventView::Matches(seq![uid]), EventView::Content(content(items))] + seq![
                EventView::Ready,
            ],
        ) == StepView::Done(Ok(Seq::<MessageView>::empty())),
{
    let contents = seq![content(items)];
    let attempt = seq![EventView::Matches(seq![uid])] + fetches(contents);
    let close = seq![EventView::Ready];
    assert(attempt =~= seq![EventView::Matches(seq![uid]), EventView::Content(content(items))]);
    assert(contents.drop_first() =~= Seq::<Option<Seq<u8>>>::empty());
    assert(gathered(contents.drop_first()) =~= Seq::<MessageView>::empty());
    assert(gathered(contents) =~= Seq::<MessageView>::empty());
    lemma_attempt(s, seq![uid], contents);
    let closing = attempted(s, seq![uid], gathered(contents));
    assert(close.drop_first() =~= Seq::<EventView>::empty());
    assert(closing.run(close) == StepView::Done(Ok(Seq::<MessageView>::empty())));
    lemma_run_concat(s, attempt, close);
}

/// Content that cannot be decoded ends the query with the error of the
/// decoder, whatever was collected before.
pub proof fn lemma_undecodable_content_ends(s: SearchView, bytes: Seq<u8>)
    requires
        s.phase is Fetching,
        parsed(bytes) is Err,
    ensures
        s.step(EventView::Content(Some(bytes))) == StepView::Done(
            Err(ErrorView::Parse(parsed(bytes)->Err_0)),
        ),
{
}

/// A failed request ends the query with its error, in every state.
pub proof fn lemma_failure_ends(s: SearchView, error: ErrorView)
    ensures
        s.step(EventView::Failed(error)) == StepView::Done(Err(error)),
{
}

} // verus!
