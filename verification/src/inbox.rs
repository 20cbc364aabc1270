//! The messages that wait to be read: those that the server pushed, and the replies
//! among which requests look for theirs.

use vstd::prelude::*;
use vstd::string::*;

use crate::message::{InBoundMessage, OutBoundMessage};
#[allow(unused_imports)]
use crate::message::{InBoundView, OutBoundView};
use crate::text::debug_text;
#[allow(unused_imports)]
use crate::text::{debug_form, texts};

verus! {

/// The number of unread system messages up to which nobody is warned.
pub const UNREAD_LIMIT: usize = 5;

/// How long a reply is waited for where nothing else is asked for, in seconds.
pub const DEFAULT_TIMEOUT_SECS: u64 = 10;

/// Whether `message` answers `request`: the correlation IDs agree, or the message has none
/// and the actions agree.
pub open spec fn answers(message: InBoundView, request: OutBoundView) -> bool {
    match message.correlation_id {
        Some(id) => id == request.correlation_id,
        None => message.action == request.action,
    }
}

/// The position of the first message that answers `request`.
pub open spec fn first_answer(messages: Seq<InBoundMessage>, request: OutBoundView) -> Option<int>
    decreases messages.len(),
{
    if messages.len() == 0 {
        None
    } else {
        match first_answer(messages.drop_last(), request) {
            Some(i) => Some(i),
            None => if answers(messages.last()@, request) {
                Some(messages.len() - 1)
            } else {
                None
            },
        }
    }
}

/// The messages that the server pushed and that have not been read yet.
#[derive(Debug)]
pub struct SystemMessagesPushed {
    buffer: Vec<InBoundMessage>,
}

impl View for SystemMessagesPushed {
    type V = Seq<InBoundMessage>;

    /// The unread messages, oldest first.
    closed spec fn view(&self) -> Seq<InBoundMessage> {
        self.buffer@
    }
}

impl SystemMessagesPushed {
    /// An empty buffer.
    pub fn new() -> (messages: Self)
        ensures
            messages@ == Seq::<InBoundMessage>::empty(),
    {
        SystemMessagesPushed { buffer: Vec::new() }
    }

    /// Drains all messages that have been pushed but not yet read.
    pub fn drain(&mut self) -> (messages: Vec<InBoundMessage>)
        ensures
            messages@ == old(self)@,
            final(self)@ == Seq::<InBoundMessage>::empty(),
    {
        let mut messages: Vec<InBoundMessage> = Vec::new();
        std::mem::swap(&mut messages, &mut self.buffer);
        messages
    }

    /// Adds a message. Gives the number of unread messages if a warning is due, because
    /// there are more than [`UNREAD_LIMIT`] of them.
    pub fn add_message(&mut self, msg: InBoundMessage) -> (overdue: Option<usize>)
        ensures
            final(self)@ == old(self)@.push(msg),
            match overdue {
                Some(unread) => unread == final(self)@.len() && unread > UNREAD_LIMIT,
                None => final(self)@.len() <= UNREAD_LIMIT,
            },
    {
        self.buffer.push(msg);
        if self.buffer.len() > UNREAD_LIMIT {
            Some(self.buffer.len())
        } else {
            None
        }
    }

    /// The unread messages, oldest first.
    pub fn unread(&self) -> (messages: &Vec<InBoundMessage>)
        ensures
            messages@ == self@,
    {
        &self.buffer
    }
}

/// Whether `message` answers `request`.
fn is_answer(message: &InBoundMessage, request: &OutBoundMessage) -> (answer: bool)
    ensures
        answer == answers(message@, request@),
{
    match &message.correlation_id {
        Some(id) => *id == request.correlation_id,
        None => message.action == request.action,
    }
}

/// Takes the first message that answers `request` out of `messages`.
pub fn take_reply(messages: &mut Vec<InBoundMessage>, request: &OutBoundMessage) -> (reply: Option<
    InBoundMessage,
>)
    ensures
        match first_answer(old(messages)@, request@) {
            Some(i) => {
                &&& 0 <= i < old(messages)@.len()
                &&& reply == Some(old(messages)@[i])
                &&& final(messages)@ == old(messages)@.remove(i)
            },
            None => reply is None && final(messages)@ == old(messages)@,
        },
{
    let mut i: usize = 0;
    while i < messages.len()
        invariant
            i <= messages@.len(),
            messages@ == old(messages)@,
            first_answer(messages@.take(i as int), request@) is None,
        decreases messages@.len() - i,
    {
        assert(messages@.take(i + 1).drop_last() =~= messages@.take(i as int));
        assert(messages@.take(i + 1).last() == messages@[i as int]);
        if is_answer(&messages[i], request) {
            proof {
                lemma_first_answer_prefix(messages@, request@, i as int);
            }
            return Some(messages.remove(i));
        }
        i += 1;
    }
    assert(messages@.take(i as int) =~= messages@);
    None
}

proof fn lemma_first_answer_prefix(messages: Seq<InBoundMessage>, request: OutBoundView, i: int)
    requires
        0 <= i < messages.len(),
        first_answer(messages.take(i + 1), request) == Some(i),
    ensures
        first_answer(messages, request) == Some(i),
    decreases messages.len(),
{
    if i + 1 < messages.len() {
        assert(messages.drop_last().take(i + 1) =~= messages.take(i + 1));
        lemma_first_answer_prefix(messages.drop_last(), request, i);
    } else {
        assert(messages.take(i + 1) =~= messages);
    }
}

/// The notice about a message without a correlation ID that a search comes across, whose
/// action is shown as `shown`.
pub open spec fn unnumbered_notice(request: OutBoundView, shown: Seq<char>) -> Seq<char> {
    "Expected correlation id "@ + request.correlation_id + " but got None, msg_action="@ + shown
}

/// The notices of a search for the reply to `request`: one for each message without a
/// correlation ID, up to the first one that answers the request.
pub open spec fn search_notices(messages: Seq<InBoundMessage>, request: OutBoundView) -> Seq<
    Seq<char>,
>
    decreases messages.len(),
{
    if messages.len() == 0 {
        Seq::empty()
    } else {
        let front = messages.drop_last();
        let notices = search_notices(front, request);
        if first_answer(front, request) is None && messages.last()@.correlation_id is None {
            notices.push(unnumbered_notice(request, debug_form(messages.last()@.action)))
        } else {
            notices
        }
    }
}

/// Writes the notice about a message without a correlation ID, whose action is shown as
/// `shown`.
pub fn unnumbered_notice_text(request: &OutBoundMessage, shown: &str) -> (notice: String)
    ensures
        notice@ == unnumbered_notice(request@, shown@),
{
    let mut notice = "Expected correlation id ".to_string();
    notice.append(request.correlation_id.as_str());
    notice.append(" but got None, msg_action=");
    notice.append(shown);
    notice
}

/// Writes the notices of a search for the reply to `request`.
pub fn notices_of_search(messages: &Vec<InBoundMessage>, request: &OutBoundMessage) -> (notices: Vec<
    String,
>)
    ensures
        texts(notices@) == search_notices(messages@, request@),
{
    let mut notices: Vec<String> = Vec::new();
    let mut found = false;
    let mut i: usize = 0;
    assert(messages@.take(0) =~= Seq::empty());
    assert(texts(notices@) =~= Seq::empty());
    while i < messages.len()
        invariant
            i <= messages@.len(),
            found == (first_answer(messages@.take(i as int), request@) is Some),
            texts(notices@) == search_notices(messages@.take(i as int), request@),
        decreases messages@.len() - i,
    {
        assert(messages@.take(i + 1).drop_last() =~= messages@.take(i as int));
        assert(messages@.take(i + 1).last() == messages@[i as int]);
        let ghost before = notices@;
        if !found {
            if messages[i].correlation_id.is_none() {
                let shown = debug_text(messages[i].action.as_str());
                let notice = unnumbered_notice_text(request, shown.as_str());
                notices.push(notice);
                assert(texts(notices@) =~= texts(before).push(notice@));
            }
            found = is_answer(&messages[i], request);
        }
        i += 1;
    }
    assert(messages@.take(i as int) =~= messages@);
    notices
}

/// Where the wait for a reply stands.
#[derive(Debug, Clone, Copy)]
pub enum WaitOutcome {
    /// It has not begun.
    Started,
    /// A message came in, this many milliseconds after the request was made.
    Notified(u64),
    /// None came in for as long as the request may still take.
    TimedOut,
}

/// What follows.
#[derive(Debug)]
pub enum ReplyStep {
    /// The reply is there. The notices are those of the search for it.
    Reply { reply: InBoundMessage, notices: Vec<String> },
    /// The reply is not there yet: wait for a message, for this many milliseconds at most.
    /// The notices are those of the search.
    KeepWaiting { millis: u64, notices: Vec<String> },
    /// The wait is over.
    Failed(String),
}

/// How long a reply may take, in milliseconds, where `timeout` seconds are asked for.
pub open spec fn timeout_millis(timeout: Option<u64>) -> nat {
    let seconds = match timeout {
        Some(seconds) => seconds,
        None => DEFAULT_TIMEOUT_SECS,
    };
    if seconds * 1000 <= u64::MAX {
        (seconds * 1000) as nat
    } else {
        u64::MAX as nat
    }
}

/// How long a reply may take, in milliseconds, where `timeout` seconds are asked for;
/// [`DEFAULT_TIMEOUT_SECS`] where it is `None`.
pub fn reply_timeout(timeout: Option<u64>) -> (millis: u64)
    ensures
        millis == timeout_millis(timeout),
{
    let seconds: u64 = match timeout {
        Some(seconds) => seconds,
        None => DEFAULT_TIMEOUT_SECS,
    };
    if seconds <= u64::MAX / 1000 {
        seconds * 1000
    } else {
        u64::MAX
    }
}

/// What is left of `timeout` once `elapsed` has passed.
pub fn remaining_wait(timeout: u64, elapsed: u64) -> (rest: u64)
    ensures
        rest == (if elapsed >= timeout {
            0
        } else {
            (timeout - elapsed) as u64
        }),
{
    if elapsed >= timeout {
        0
    } else {
        timeout - elapsed
    }
}

/// What a search for the reply comes to, `elapsed` milliseconds after the request was made.
pub open spec fn is_search_step(
    step: ReplyStep,
    before: Seq<InBoundMessage>,
    after: Seq<InBoundMessage>,
    request: OutBoundView,
    timeout: u64,
    elapsed: u64,
) -> bool {
    match first_answer(before, request) {
        Some(i) => {
            &&& 0 <= i < before.len()
            &&& step matches ReplyStep::Reply { reply, notices }
            &&& reply == before[i]
            &&& texts(notices@) == search_notices(before, request)
            &&& after == before.remove(i)
        },
        None => {
            &&& step matches ReplyStep::KeepWaiting { millis, notices }
            &&& millis == timeout - elapsed
            &&& texts(notices@) == search_notices(before, request)
            &&& after == before
        },
    }
}

/// Searches the messages for the reply.
fn search_step(
    messages: &mut Vec<InBoundMessage>,
    request: &OutBoundMessage,
    timeout: u64,
    elapsed: u64,
) -> (step: ReplyStep)
    requires
        elapsed < timeout,
    ensures
        is_search_step(step, old(messages)@, final(messages)@, request@, timeout, elapsed),
{
    let notices = notices_of_search(messages, request);
    match take_reply(messages, request) {
        Some(reply) => ReplyStep::Reply { reply, notices },
        None => ReplyStep::KeepWaiting { millis: remaining_wait(timeout, elapsed), notices },
    }
}

/// Decides what comes next for a request that may take `timeout` milliseconds: it fails once
/// the time is up, and before that the messages are searched for the reply, which is taken
/// out. A reply that is not there yet is waited for, for no longer than what is left of the
/// time.
pub fn reply_step(
    messages: &mut Vec<InBoundMessage>,
    request: &OutBoundMessage,
    outcome: WaitOutcome,
    timeout: u64,
) -> (step: ReplyStep)
    ensures
        match outcome {
            WaitOutcome::Started if timeout > 0 => is_search_step(
                step,
                old(messages)@,
                final(messages)@,
                request@,
                timeout,
                0,
            ),
            WaitOutcome::Notified(elapsed) => if elapsed >= timeout {
                &&& step matches ReplyStep::Failed(message)
                &&& message@ == "Timeout waiting for message with action "@ + request@.action
                &&& final(messages)@ == old(messages)@
            } else {
                is_search_step(
                    step,
                    old(messages)@,
                    final(messages)@,
                    request@,
                    timeout,
                    elapsed,
                )
            },
            _ => {
                &&& step matches ReplyStep::Failed(message)
                &&& message@ == "Timeout on .wait_timeout for message with action "@
                    + request@.action
                &&& final(messages)@ == old(messages)@
            },
        },
{
    match outcome {
        WaitOutcome::Started if timeout > 0 => search_step(messages, request, timeout, 0),
        WaitOutcome::Notified(elapsed) => {
            if elapsed >= timeout {
                return ReplyStep::Failed(
                    "Timeout waiting for message with action ".to_string().concat(
                        request.action.as_str(),
                    ),
                );
            }
            search_step(messages, request, timeout, elapsed)
        },
        _ => ReplyStep::Failed(
            "Timeout on .wait_timeout for message with action ".to_string().concat(
                request.action.as_str(),
            ),
        ),
    }
}

/// A search for a reply looks at all messages: it finds the first one that answers the
/// request, and comes back empty-handed only if none does.
pub proof fn law_search_is_complete(messages: Seq<InBoundMessage>, request: OutBoundView)
    ensures
        match first_answer(messages, request) {
            Some(i) => {
                &&& 0 <= i < messages.len()
                &&& answers(messages[i]@, request)
                &&& forall|j: int| 0 <= j < i ==> !answers(#[trigger] messages[j]@, request)
            },
            None => forall|j: int|
                0 <= j < messages.len() ==> !answers(#[trigger] messages[j]@, request),
        },
    decreases messages.len(),
{
    if messages.len() > 0 {
        let front = messages.drop_last();
        law_search_is_complete(front, request);
        assert(forall|j: int| 0 <= j < front.len() ==> front[j] == messages[j]);
    }
}

/// Replies may come in any order: the one with the correlation ID of the request is found
/// behind any number of messages that do not answer it, such as replies with other
/// correlation IDs.
pub proof fn law_interleaved_reply_is_found(
    messages: Seq<InBoundMessage>,
    request: OutBoundView,
    i: int,
)
    requires
        0 <= i < messages.len(),
        messages[i]@.correlation_id == Some(request.correlation_id),
        forall|j: int| 0 <= j < i ==> !answers(#[trigger] messages[j]@, request),
    ensures
        first_answer(messages, request) == Some(i),
{
    law_search_is_complete(messages, request);
    assert(answers(messages[i]@, request));
}

/// `messages` without those at two different positions.
pub open spec fn without_both(messages: Seq<InBoundMessage>, a: int, b: int) -> Seq<
    InBoundMessage,
> {
    if a < b {
        messages.remove(b).remove(a)
    } else {
        messages.remove(a).remove(b)
    }
}

/// Requests do not take each other's replies away: once one of them has taken its reply, the
/// other one finds the same message as before, if it was not the very message that was taken;
/// and once it has taken it too, exactly these two messages are gone.
pub proof fn law_requests_do_not_interfere(
    messages: Seq<InBoundMessage>,
    first: OutBoundView,
    second: OutBoundView,
)
    requires
        first_answer(messages, first) is Some,
        first_answer(messages, second) is Some,
        first_answer(messages, first) != first_answer(messages, second),
    ensures
        ({
            let taken = first_answer(messages, first)->0;
            let wanted = first_answer(messages, second)->0;
            let rest = messages.remove(taken);
            let found = first_answer(rest, second)->0;
            &&& first_answer(rest, second) is Some
            &&& rest[found] == messages[wanted]
            &&& rest.remove(found) == without_both(messages, taken, wanted)
        }),
{
    law_search_is_complete(messages, first);
    law_search_is_complete(messages, second);
    let taken = first_answer(messages, first)->0;
    let wanted = first_answer(messages, second)->0;
    let rest = messages.remove(taken);
    law_search_is_complete(rest, second);
    let place = if taken < wanted {
        wanted - 1
    } else {
        wanted
    };
    assert(rest[place] == messages[wanted]);
    assert(answers(rest[place]@, second));
    let found = first_answer(rest, second)->0;
    if found < place {
        assert(rest[found] == if found < taken {
            messages[found]
        } else {
            messages[found + 1]
        });
    }
    assert(found == place);
    assert(rest.remove(place) =~= without_both(messages, taken, wanted));
}

/// A request never takes the reply that carries the correlation ID of another one.
pub proof fn law_other_replies_stay(
    messages: Seq<InBoundMessage>,
    request: OutBoundView,
    other: OutBoundView,
    i: int,
)
    requires
        0 <= i < messages.len(),
        messages[i]@.correlation_id == Some(other.correlation_id),
        other.correlation_id != request.correlation_id,
    ensures
        first_answer(messages, request) != Some(i),
{
    law_search_is_complete(messages, request);
}

/// A message with a correlation ID answers the request with this ID, whatever its action; one
/// without answers a request with its action.
pub proof fn law_what_answers_a_request(message: InBoundView, request: OutBoundView)
    ensures
        message.correlation_id is Some ==> (answers(message, request)
            <==> message.correlation_id->0 == request.correlation_id),
        message.correlation_id is None ==> (answers(message, request) <==> message.action
            == request.action),
{
}

/// A search ends with a reply if one of the messages answers the request, and then with the
/// first such message, which is gone from the messages while all others stay, in order;
/// otherwise the messages stay as they are, and what is left of the time is waited for.
pub proof fn law_search_ends_with_a_reply_or_a_wait(
    step: ReplyStep,
    before: Seq<InBoundMessage>,
    after: Seq<InBoundMessage>,
    request: OutBoundView,
    timeout: u64,
    elapsed: u64,
)
    requires
        is_search_step(step, before, after, request, timeout, elapsed),
    ensures
        forall|i: int|
            0 <= i < before.len() && answers(#[trigger] before[i]@, request) && (forall|j: int|
                0 <= j < i ==> !answers(#[trigger] before[j]@, request)) ==> {
                &&& step is Reply
                &&& step->reply == before[i]
                &&& after.len() == before.len() - 1
                &&& forall|j: int| 0 <= j < i ==> #[trigger] after[j] == before[j]
                &&& forall|j: int| i <= j < after.len() ==> #[trigger] after[j] == before[j + 1]
            },
        (forall|i: int| 0 <= i < before.len() ==> !answers(#[trigger] before[i]@, request)) ==> {
            &&& step is KeepWaiting
            &&& step->millis == timeout - elapsed
            &&& after == before
        },
        step is Reply ==> texts(step->Reply_notices@) == search_notices(before, request),
        step is KeepWaiting ==> texts(step->KeepWaiting_notices@) == search_notices(
            before,
            request,
        ),
        !(step is Failed),
{
    law_search_is_complete(before, request);
}

/// Each message without a correlation ID that a search looks at is noticed, in order, and no
/// other message is; the search looks no further than the first answer.
pub proof fn law_unnumbered_messages_are_noticed(
    messages: Seq<InBoundMessage>,
    request: OutBoundView,
)
    ensures
        ({
            let looked_at = match first_answer(messages, request) {
                Some(i) => messages.take(i + 1),
                None => messages,
            };
            search_notices(messages, request) == looked_at.filter_map(
                |message: InBoundMessage|
                    if message.correlation_id is None {
                        Some(
                            "Expected correlation id "@ + request.correlation_id
                                + " but got None, msg_action="@ + debug_form(message.action@),
                        )
                    } else {
                        None
                    },
            )
        }),
    decreases messages.len(),
{
    let notice = |message: InBoundMessage|
        if message.correlation_id is None {
            Some(
                "Expected correlation id "@ + request.correlation_id
                    + " but got None, msg_action="@ + debug_form(message.action@),
            )
        } else {
            None
        };
    if messages.len() > 0 {
        let front = messages.drop_last();
        law_unnumbered_messages_are_noticed(front, request);
        law_search_is_complete(front, request);
        match first_answer(front, request) {
            Some(i) => {
                assert(front.take(i + 1) =~= messages.take(i + 1));
            },
            None => {
                assert(messages.take(messages.len() as int) =~= messages);
                let found = match first_answer(messages, request) {
                    Some(i) => messages.take(i + 1),
                    None => messages,
                };
                assert(found == messages);
                let notices = front.filter_map(notice);
                assert(search_notices(front, request) == notices);
                match notice(messages.last()) {
                    Some(text) => {
                        assert(notices + seq![text] =~= notices.push(text));
                    },
                    None => {},
                }
            },
        }
    }
}

/// A notice names the correlation ID that was looked for and the action that was found.
pub proof fn law_notice_names_both(request: OutBoundView, shown: Seq<char>)
    ensures
        unnumbered_notice(request, shown) == "Expected correlation id "@ + request.correlation_id
            + " but got None, msg_action="@ + shown,
{
}

/// A request may take as many seconds as are asked for, and ten where none are; so many
/// seconds that their milliseconds cannot be counted are the longest time that can.
pub proof fn law_seconds_are_counted(seconds: u64)
    ensures
        1000 * seconds <= u64::MAX ==> timeout_millis(Some(seconds)) == 1000 * seconds,
        1000 * seconds > u64::MAX ==> timeout_millis(Some(seconds)) == u64::MAX,
        timeout_millis(None) == 10000,
{
}

} // verus!
