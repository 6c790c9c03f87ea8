//! What holds of the bot's memory whatever happens in the chat.

use vstd::prelude::*;

pub mod calculator;
pub mod list;
pub mod model;
pub mod offset;
pub mod response;
pub mod session;
pub mod text;
pub mod tool;
pub mod update;
pub mod weather;

use crate::list::{first_index, lemma_first_index, lemma_first_index_at, without_first};
use crate::session::{
    is_message, is_overdue, mention, prompt_in, remember, says, stands_in, AppView, PendingView,
    BOT_ACCOUNT, HISTORY_LEN, RETRY_AFTER,
};
use crate::text::has_text;

verus! {

// The history.

/// The history after some lines were remembered, one after the other.
pub open spec fn remember_all(history: Seq<Seq<char>>, lines: Seq<Seq<char>>) -> Seq<Seq<char>>
    decreases lines.len(),
{
    if lines.len() == 0 {
        history
    } else {
        remember(remember_all(history, lines.drop_last()), lines.last())
    }
}

/// The last of some lines, as many as are remembered.
pub open spec fn last_lines(lines: Seq<Seq<char>>) -> Seq<Seq<char>> {
    if lines.len() <= HISTORY_LEN {
        lines
    } else {
        lines.skip(lines.len() - HISTORY_LEN)
    }
}

/// The history is always the last ten messages, in their order.
pub proof fn law_history_is_the_last_messages(history: Seq<Seq<char>>, lines: Seq<Seq<char>>)
    requires
        history.len() <= HISTORY_LEN,
    ensures
        remember_all(history, lines) == last_lines(history + lines),
    decreases lines.len(),
{
    if lines.len() == 0 {
        assert(history + lines =~= history);
    } else {
        let before = lines.drop_last();
        law_history_is_the_last_messages(history, before);
        assert(history + lines =~= (history + before).push(lines.last()));
        assert(remember_all(history, lines) =~= last_lines(history + lines));
    }
}

// Messages that were sent.

/// A message that is sent and then seen in the chat is pending no more, and leaves the others as
/// they were, unless an older one says the same.
pub proof fn law_sent_then_seen(app: AppView, content: Seq<char>, now: u128)
    requires
        forall|i: int| 0 <= i < app.pending.len() ==> (#[trigger] app.pending[i]).content != content,
    ensures
        app.sending(content, now).receiving(BOT_ACCOUNT@, content).pending == app.pending,
{
    let sent = app.sending(content, now).pending;
    let n = app.pending.len() as int;
    assert forall|j: int| 0 <= j < n implies !says(content)(#[trigger] sent[j]) by {
        assert(sent[j] == app.pending[j]);
    }
    assert(says(content)(sent[n]));
    lemma_first_index_at(sent, says(content), n);
    assert(sent.remove(n) =~= app.pending);
}

/// A message that is seen in the chat settles one pending message with its text, the oldest.
pub proof fn law_echo_settles_the_oldest(app: AppView, content: Seq<char>, i: int)
    requires
        0 <= i < app.pending.len(),
        app.pending[i].content == content,
        forall|j: int| 0 <= j < i ==> (#[trigger] app.pending[j]).content != content,
    ensures
        app.receiving(BOT_ACCOUNT@, content).pending == app.pending.remove(i),
{
    lemma_first_index_at(app.pending, says(content), i);
}

/// What others say settles no pending message.
pub proof fn law_others_settle_nothing(app: AppView, sender: Seq<char>, message: Seq<char>)
    requires
        sender != BOT_ACCOUNT@,
    ensures
        app.receiving(sender, message).pending == app.pending,
{
}

/// To confirm a message takes away no other message.
pub proof fn law_confirmation_spares_the_others(
    app: AppView,
    id: u64,
    content: Seq<char>,
    other: PendingView,
)
    requires
        app.pending.contains(other),
        other.id != id || other.content != content,
    ensures
        app.confirming(id, content).pending.contains(other),
{
    let holds = is_message(id, content);
    lemma_first_index(app.pending, holds);
    if let Some(i) = first_index(app.pending, holds) {
        let k = choose|k: int| 0 <= k < app.pending.len() && app.pending[k] == other;
        assert(k != i);
        let left = app.pending.remove(i);
        if k < i {
            assert(left[k] == other);
        } else {
            assert(left[k - 1] == other);
        }
    }
}

/// A pending message stays pending whatever else is said in the chat.
pub proof fn law_message_waits_for_its_echo(
    app: AppView,
    sender: Seq<char>,
    message: Seq<char>,
    other: PendingView,
)
    requires
        app.pending.contains(other),
        other.content != message,
    ensures
        app.receiving(sender, message).pending.contains(other),
{
    let holds = says(message);
    lemma_first_index(app.pending, holds);
    if let Some(i) = first_index(app.pending, holds) {
        let k = choose|k: int| 0 <= k < app.pending.len() && app.pending[k] == other;
        assert(k != i);
        let left = app.pending.remove(i);
        if k < i {
            assert(left[k] == other);
        } else {
            assert(left[k - 1] == other);
        }
    }
}

/// An id is given out once: a message that is sent gets an id that no pending message has.
pub proof fn law_ids_are_new(app: AppView, content: Seq<char>, now: u128, other: PendingView)
    requires
        app.wf(),
        app.pending.contains(other),
    ensures
        app.sending(content, now).pending.last().id > other.id,
{
}

/// A message is not sent again within five seconds.
pub proof fn law_no_retry_too_soon(app: AppView, content: Seq<char>, now: u128, later: u128)
    requires
        later - now <= RETRY_AFTER,
    ensures
        !is_overdue(later)(app.sending(content, now).pending.last()),
{
}

// Sending again.

/// A pending message that is sent again moves to the end of the list, under a new id.
pub proof fn law_retry_replaces_the_message(app: AppView, i: int, now: u128)
    requires
        app.wf(),
        0 <= i < app.pending.len(),
    ensures
        app.retrying(app.pending[i], now).pending == app.pending.remove(i).push(
            PendingView { id: app.next_id, content: app.pending[i].content, timestamp: now },
        ),
{
    let message = app.pending[i];
    let fresh = PendingView { id: app.next_id, content: message.content, timestamp: now };
    let sent = app.pending.push(fresh);
    let holds = is_message(message.id, message.content);
    assert forall|j: int| 0 <= j < i implies !holds(#[trigger] sent[j]) by {
        assert(sent[j] == app.pending[j]);
        assert(app.pending[j].id < app.pending[i].id);
    }
    assert(sent[i] == message);
    lemma_first_index_at(sent, holds, i);
    assert(sent.remove(i) =~= app.pending.remove(i).push(fresh));
}

/// The state after some messages were sent again, one after the other, each at its time.
pub open spec fn retry_all(
    app: AppView,
    messages: Seq<PendingView>,
    times: Seq<u128>,
) -> AppView
    decreases messages.len(),
{
    if messages.len() == 0 {
        app
    } else {
        retry_all(app, messages.drop_last(), times.drop_last()).retrying(
            messages.last(),
            times.last(),
        )
    }
}

/// What becomes of some messages that are sent again: the same texts, under new ids.
pub open spec fn fresh_copies(
    messages: Seq<PendingView>,
    times: Seq<u128>,
    next_id: u64,
) -> Seq<PendingView> {
    Seq::new(
        messages.len(),
        |i: int|
            PendingView {
                id: (next_id + i) as u64,
                content: messages[i].content,
                timestamp: times[i],
            },
    )
}

/// The messages that do not have the id of one of these.
spec fn is_none_of(messages: Seq<PendingView>) -> spec_fn(PendingView) -> bool {
    |m: PendingView| forall|j: int| 0 <= j < messages.len() ==> (#[trigger] messages[j]).id != m.id
}

spec fn distinct_ids(messages: Seq<PendingView>) -> bool {
    forall|i: int, j: int| 0 <= i < j < messages.len() ==> messages[i].id != messages[j].id
}

proof fn lemma_filter_agrees(
    items: Seq<PendingView>,
    p: spec_fn(PendingView) -> bool,
    q: spec_fn(PendingView) -> bool,
)
    requires
        forall|i: int| 0 <= i < items.len() ==> p(#[trigger] items[i]) == q(items[i]),
    ensures
        items.filter(p) == items.filter(q),
    decreases items.len(),
{
    reveal(Seq::filter);
    if items.len() > 0 {
        let rest = items.drop_last();
        assert forall|i: int| 0 <= i < rest.len() implies p(#[trigger] rest[i]) == q(rest[i]) by {
            assert(rest[i] == items[i]);
        }
        lemma_filter_agrees(rest, p, q);
        assert(p(items[items.len() - 1]) == q(items[items.len() - 1]));
    }
}

proof fn lemma_filter_all(items: Seq<PendingView>, p: spec_fn(PendingView) -> bool)
    requires
        forall|i: int| 0 <= i < items.len() ==> p(#[trigger] items[i]),
    ensures
        items.filter(p) == items,
    decreases items.len(),
{
    reveal(Seq::filter);
    if items.len() > 0 {
        let rest = items.drop_last();
        assert forall|i: int| 0 <= i < rest.len() implies p(#[trigger] rest[i]) by {
            assert(rest[i] == items[i]);
        }
        lemma_filter_all(rest, p);
        assert(p(items[items.len() - 1]));
        assert(rest.push(items.last()) =~= items);
    }
}

proof fn lemma_filter_member(
    items: Seq<PendingView>,
    p: spec_fn(PendingView) -> bool,
    i: int,
) -> (k: int)
    requires
        0 <= i < items.filter(p).len(),
    ensures
        0 <= k < items.len(),
        items[k] == items.filter(p)[i],
        p(items[k]),
    decreases items.len(),
{
    reveal(Seq::filter);
    let rest = items.drop_last();
    if i < rest.filter(p).len() {
        lemma_filter_member(rest, p, i)
    } else {
        items.len() - 1
    }
}

proof fn lemma_filter_keeps_distinct_ids(
    items: Seq<PendingView>,
    p: spec_fn(PendingView) -> bool,
)
    requires
        distinct_ids(items),
    ensures
        distinct_ids(items.filter(p)),
    decreases items.len(),
{
    reveal(Seq::filter);
    if items.len() > 0 {
        let rest = items.drop_last();
        let kept = rest.filter(p);
        lemma_filter_keeps_distinct_ids(rest, p);
        let all = items.filter(p);
        assert forall|i: int, j: int| 0 <= i < j < all.len() implies all[i].id != all[j].id by {
            if j < kept.len() {
                assert(all[i] == kept[i]);
                assert(all[j] == kept[j]);
            } else {
                let k = lemma_filter_member(rest, p, i);
                assert(rest[k] == items[k]);
                assert(all[i] == kept[i]);
            }
        }
    }
}

/// Of the messages that are kept, and some behind them, one is taken away.
proof fn lemma_take_from_kept(
    items: Seq<PendingView>,
    p: spec_fn(PendingView) -> bool,
    q: spec_fn(PendingView) -> bool,
    behind: Seq<PendingView>,
    at: int,
)
    requires
        distinct_ids(items),
        0 <= at < items.len(),
        p(items[at]),
        forall|m: PendingView| #[trigger] q(m) == (p(m) && m.id != items[at].id),
    ensures
        without_first(
            items.filter(p) + behind,
            is_message(items[at].id, items[at].content),
        ) == items.filter(q) + behind,
    decreases items.len(),
{
    reveal(Seq::filter);
    let n = items.len() - 1;
    let rest = items.drop_last();
    let message = items[at];
    let holds = is_message(message.id, message.content);
    let kept = rest.filter(p);
    if at == n {
        assert forall|i: int| 0 <= i < rest.len() implies p(#[trigger] rest[i]) == q(rest[i]) by {
            assert(rest[i] == items[i]);
        }
        lemma_filter_agrees(rest, p, q);
        let all = items.filter(p) + behind;
        let k = kept.len() as int;
        assert(items.filter(p) == kept.push(message));
        assert(all[k] == message);
        assert forall|j: int| 0 <= j < k implies !holds(#[trigger] all[j]) by {
            let i = lemma_filter_member(rest, p, j);
            assert(all[j] == kept[j]);
            assert(rest[i] == items[i]);
        }
        lemma_first_index_at(all, holds, k);
        assert(all.remove(k) =~= kept + behind);
    } else {
        assert(rest[at] == items[at]);
        let last = items.last();
        assert(items[at].id != items[n].id);
        let longer = if p(last) {
            seq![last] + behind
        } else {
            behind
        };
        lemma_take_from_kept(rest, p, q, longer, at);
        assert(items.filter(p) + behind =~= kept + longer);
        assert(items.filter(q) + behind =~= rest.filter(q) + longer);
    }
}

proof fn lemma_retry_all(app: AppView, messages: Seq<PendingView>, times: Seq<u128>)
    requires
        app.wf(),
        times.len() == messages.len(),
        app.next_id + messages.len() <= u64::MAX,
        distinct_ids(messages),
        forall|i: int| 0 <= i < messages.len() ==> app.pending.contains(#[trigger] messages[i]),
    ensures
        retry_all(app, messages, times).pending == app.pending.filter(is_none_of(messages))
            + fresh_copies(messages, times, app.next_id),
        retry_all(app, messages, times).next_id == app.next_id + messages.len(),
    decreases messages.len(),
{
    let result = retry_all(app, messages, times);
    if messages.len() == 0 {
        lemma_filter_all(app.pending, is_none_of(messages));
        assert(result.pending =~= app.pending + fresh_copies(messages, times, app.next_id));
    } else {
        let before = messages.drop_last();
        let earlier = times.drop_last();
        let message = messages.last();
        let now = times.last();
        let n = before.len();
        assert forall|i: int| 0 <= i < before.len() implies app.pending.contains(
            #[trigger] before[i],
        ) by {
            assert(before[i] == messages[i]);
        }
        assert(distinct_ids(before)) by {
            assert forall|i: int, j: int| 0 <= i < j < before.len() implies before[i].id
                != before[j].id by {
                assert(before[i] == messages[i]);
                assert(before[j] == messages[j]);
            }
        }
        lemma_retry_all(app, before, earlier);
        let middle = retry_all(app, before, earlier);
        let fresh = PendingView {
            id: (app.next_id + n) as u64,
            content: message.content,
            timestamp: now,
        };
        let copies = fresh_copies(before, earlier, app.next_id);
        let all_copies = fresh_copies(messages, times, app.next_id);
        assert(all_copies =~= copies.push(fresh));
        let p = is_none_of(before);
        let q = is_none_of(messages);
        assert(messages[messages.len() - 1] == message);
        assert(app.pending.contains(message));
        let at = choose|at: int| 0 <= at < app.pending.len() && app.pending[at] == message;
        assert(p(message)) by {
            assert forall|j: int| 0 <= j < before.len() implies (#[trigger] before[j]).id
                != message.id by {
                assert(before[j] == messages[j]);
            }
        }
        assert forall|m: PendingView| #[trigger] q(m) == (p(m) && m.id != message.id) by {
            if q(m) {
                assert forall|j: int| 0 <= j < before.len() implies (#[trigger] before[j]).id
                    != m.id by {
                    assert(before[j] == messages[j]);
                }
            }
            if p(m) && m.id != message.id {
                assert forall|j: int| 0 <= j < messages.len() implies (#[trigger] messages[j]).id
                    != m.id by {
                    if j < before.len() {
                        assert(before[j] == messages[j]);
                    }
                }
            }
        }
        lemma_take_from_kept(app.pending, p, q, all_copies, at);
        assert(middle.pending.push(fresh) =~= app.pending.filter(p) + all_copies);
    }
}

/// A round of sending again loses no message and doubles none: the messages that were not sent
/// again stay as they are, and behind them stands a fresh copy of each of the others.
pub proof fn law_retry_round(
    app: AppView,
    chosen: spec_fn(PendingView) -> bool,
    times: Seq<u128>,
)
    requires
        app.wf(),
        times.len() == app.pending.filter(chosen).len(),
        app.next_id + times.len() <= u64::MAX,
    ensures
        retry_all(app, app.pending.filter(chosen), times).pending == app.pending.filter(
            |m: PendingView| !chosen(m),
        ) + fresh_copies(app.pending.filter(chosen), times, app.next_id),
{
    let messages = app.pending.filter(chosen);
    assert(distinct_ids(app.pending));
    lemma_filter_keeps_distinct_ids(app.pending, chosen);
    assert forall|i: int| 0 <= i < messages.len() implies app.pending.contains(
        #[trigger] messages[i],
    ) by {
        let k = lemma_filter_member(app.pending, chosen, i);
    }
    lemma_retry_all(app, messages, times);
    let left = |m: PendingView| !chosen(m);
    let none = is_none_of(messages);
    assert forall|i: int| 0 <= i < app.pending.len() implies none(#[trigger] app.pending[i])
        == left(app.pending[i]) by {
        let m = app.pending[i];
        if chosen(m) {
            app.pending.lemma_filter_contains(chosen, i);
            let j = choose|j: int| 0 <= j < messages.len() && messages[j] == m;
            assert(messages[j].id == m.id);
        } else {
            assert forall|j: int| 0 <= j < messages.len() implies (#[trigger] messages[j]).id
                != m.id by {
                let k = lemma_filter_member(app.pending, chosen, j);
                assert(k != i);
            }
        }
    }
    lemma_filter_agrees(app.pending, none, left);
}

// Users and prompts.

/// A user is detected in a message exactly if they are known and their name stands in it.
pub proof fn law_detected_users(app: AppView, message: Seq<char>, name: Seq<char>)
    ensures
        app.users.filter(stands_in(message)).contains(name) <==> app.users.contains(name)
            && has_text(message, name),
{
    let named = stands_in(message);
    let found = app.users.filter(named);
    if found.contains(name) {
        let i = choose|i: int| 0 <= i < found.len() && found[i] == name;
        app.users.lemma_filter_pred(named, i);
        app.users.lemma_filter_contains_rev(named, name);
    }
    if app.users.contains(name) && has_text(message, name) {
        let i = choose|i: int| 0 <= i < app.users.len() && app.users[i] == name;
        assert(named(app.users[i]));
        app.users.lemma_filter_contains(named, i);
    }
}

/// What is said to the bot by its name and a space is what it is asked.
pub proof fn law_prompt_follows_the_name(text: Seq<char>)
    ensures
        prompt_in(mention() + " "@ + text) == Some(text),
{
    let message = mention() + " "@ + text;
    let opening = mention() + " "@;
    assert(message.subrange(0, mention().len() as int) =~= mention());
    assert(message.subrange(0, opening.len() as int) =~= opening);
    assert(message.skip(opening.len() as int) =~= text);
}

} // verus!
