//! What the bot's memory does at each step, told by its lists before and after.

use vstd::prelude::*;

use crate::laws::law_detected_users;
use crate::laws::text::{lacks, law_has_text, law_starts_with};
use crate::list::{lemma_first_index_at, lemma_first_index_none};
use crate::session::{
    directed_prompt, distinct, is_message, is_overdue, law_users_are_those_read, mention,
    pending_views, prompt_in, says, stands_in, App, AppView, PendingMessage, PendingView,
};
use crate::text::{joined, texts};

verus! {

// Messages to the bot.

/// A message that does not begin with the bot's name asks it nothing.
pub proof fn law_other_messages_ask_nothing(message: Seq<char>)
    requires
        !"@brok"@.is_prefix_of(message),
    ensures
        prompt_in(message) is None,
{
    lemma_mention();
    law_starts_with(message, "@brok"@);
}

/// A message that begins with the bot's name and a blank asks it what stands behind the blank.
pub proof fn law_named_messages_ask(rest: Seq<char>)
    ensures
        prompt_in("@brok "@ + rest) == Some(rest),
{
    let message = "@brok "@ + rest;
    lemma_mention();
    reveal_strlit("@brok");
    reveal_strlit("@brok ");
    law_starts_with(message, "@brok"@);
    law_starts_with(message, "@brok "@);
    assert(message.subrange(0, 5) =~= "@brok"@);
    assert(message.subrange(0, 6) =~= "@brok "@);
    assert(message.skip(6) =~= rest);
}

/// A message that begins with the bot's name and no blank asks it the message as it is.
pub proof fn law_glued_messages_ask(message: Seq<char>)
    requires
        "@brok"@.is_prefix_of(message),
        !"@brok "@.is_prefix_of(message),
    ensures
        prompt_in(message) == Some(message),
{
    lemma_mention();
    law_starts_with(message, "@brok"@);
    law_starts_with(message, "@brok "@);
}

proof fn lemma_mention()
    ensures
        mention() == "@brok"@,
        mention() + " "@ == "@brok "@,
{
    reveal_strlit("@");
    reveal_strlit("brok");
    reveal_strlit("@brok");
    reveal_strlit("@brok ");
    reveal_strlit(" ");
    assert(mention() =~= "@brok"@);
    assert(mention() + " "@ =~= "@brok "@);
}

/// `directed_prompt` gives a prompt exactly for the messages that begin with the bot's name.
pub proof fn law_directed_prompt(message: &str, prompt: Option<String>)
    requires
        call_ensures(directed_prompt, (message,), prompt),
    ensures
        !"@brok"@.is_prefix_of(message@) ==> prompt is None,
        "@brok "@.is_prefix_of(message@) ==> (prompt matches Some(p) && message@ == "@brok "@ + p@),
        "@brok"@.is_prefix_of(message@) && !"@brok "@.is_prefix_of(message@) ==> (
        prompt matches Some(p) && p@ == message@),
{
    if !"@brok"@.is_prefix_of(message@) {
        law_other_messages_ask_nothing(message@);
    } else if !"@brok "@.is_prefix_of(message@) {
        law_glued_messages_ask(message@);
    }
    if "@brok "@.is_prefix_of(message@) {
        reveal_strlit("@brok ");
        let rest = message@.skip(6);
        assert(message@ =~= "@brok "@ + rest) by {
            assert(message@.subrange(0, 6) == "@brok "@);
            assert(message@ =~= message@.subrange(0, 6) + rest);
        }
        law_named_messages_ask(rest);
    }
}

// The history.

/// The line of a message is added to the history, and the first of eleven lines is dropped.
pub open spec fn history_grows(
    before: Seq<Seq<char>>,
    after: Seq<Seq<char>>,
    line: Seq<char>,
) -> bool {
    &&& before.len() < 10 ==> after == before + seq![line]
    &&& before.len() == 10 ==> after == before.skip(1) + seq![line]
}

/// What stays as it is while a message is remembered.
pub open spec fn rest_stays(before: AppView, after: AppView) -> bool {
    after.users == before.users && after.endpoint == before.endpoint
}

/// A message is remembered with its sender, and nothing else changes.
pub proof fn law_remembering(app: AppView, sender: Seq<char>, message: Seq<char>)
    ensures
        history_grows(
            app.history,
            app.remembering(sender, message).history,
            sender + ": "@ + message,
        ),
        app.remembering(sender, message).pending == app.pending,
        app.remembering(sender, message).next_id == app.next_id,
        rest_stays(app, app.remembering(sender, message)),
{
    let line = sender + ": "@ + message;
    assert(app.history.push(line) =~= app.history + seq![line]);
    if app.history.len() == 10 {
        assert(app.history.push(line).drop_first() =~= app.history.skip(1) + seq![line]);
    }
}

/// `add_message_to_history` adds the sender and the message, and touches nothing else.
pub proof fn law_add_message_to_history(app: &mut App, sender: &str, message: &str)
    requires
        call_ensures(App::add_message_to_history, (app, sender, message), ()),
    ensures
        history_grows(old(app)@.history, final(app)@.history, sender@ + ": "@ + message@),
        final(app)@.pending == old(app)@.pending,
        final(app)@.next_id == old(app)@.next_id,
        rest_stays(old(app)@, final(app)@),
{
    law_remembering(app@, sender@, message@);
}

// Messages that were sent.

/// A message that is sent is put last, under the next id, and nothing else changes.
pub proof fn law_sending(app: AppView, content: Seq<char>, now: u128)
    requires
        app.next_id < u64::MAX,
    ensures
        app.sending(content, now).pending == app.pending + seq![
            PendingView { id: app.next_id, content, timestamp: now },
        ],
        app.sending(content, now).next_id == app.next_id + 1,
        app.sending(content, now).history == app.history,
        rest_stays(app, app.sending(content, now)),
{
    let last = PendingView { id: app.next_id, content, timestamp: now };
    assert(app.pending.push(last) =~= app.pending + seq![last]);
}

/// `add_pending_message` puts the message last, under the next id, and touches nothing else.
pub proof fn law_add_pending_message(app: &mut App, content: String, now: u128, id: u64)
    requires
        old(app)@.next_id < u64::MAX,
        call_ensures(App::add_pending_message, (app, content, now), id),
    ensures
        id == old(app)@.next_id,
        final(app)@.next_id == id + 1,
        final(app)@.pending == old(app)@.pending + seq![
            PendingView { id, content: content@, timestamp: now },
        ],
        final(app)@.history == old(app)@.history,
        rest_stays(old(app)@, final(app)@),
{
    law_sending(app@, content@, now);
}

/// The messages without the one at `i`.
pub open spec fn without(pending: Seq<PendingView>, i: int) -> Seq<PendingView> {
    pending.take(i) + pending.skip(i + 1)
}

/// The message at `i` is the one with this id and this text.
pub open spec fn is_at(pending: Seq<PendingView>, i: int, id: u64, content: Seq<char>) -> bool {
    0 <= i < pending.len() && pending[i].id == id && pending[i].content == content
}

/// No message has this id and this text.
pub open spec fn is_nowhere(pending: Seq<PendingView>, id: u64, content: Seq<char>) -> bool {
    forall|j: int|
        0 <= j < pending.len() ==> (#[trigger] pending[j]).id != id || pending[j].content
            != content
}

/// The message at `i` is the first one with this text.
pub open spec fn is_first_at(pending: Seq<PendingView>, i: int, content: Seq<char>) -> bool {
    &&& 0 <= i < pending.len()
    &&& pending[i].content == content
    &&& forall|j: int| 0 <= j < i ==> (#[trigger] pending[j]).content != content
}

/// No message has this text.
pub open spec fn is_unsaid(pending: Seq<PendingView>, content: Seq<char>) -> bool {
    forall|j: int| 0 <= j < pending.len() ==> (#[trigger] pending[j]).content != content
}

/// A message that is confirmed leaves the list, by its id and its text, and nothing else changes.
pub proof fn law_confirming(app: AppView, id: u64, content: Seq<char>, i: int)
    requires
        app.wf(),
    ensures
        is_at(app.pending, i, id, content) ==> app.confirming(id, content).pending == without(
            app.pending,
            i,
        ),
        is_nowhere(app.pending, id, content) ==> app.confirming(id, content).pending
            == app.pending,
        app.confirming(id, content).next_id == app.next_id,
        app.confirming(id, content).history == app.history,
        rest_stays(app, app.confirming(id, content)),
{
    let holds = is_message(id, content);
    if is_at(app.pending, i, id, content) {
        assert forall|j: int| 0 <= j < i implies !holds(#[trigger] app.pending[j]) by {
            assert(app.pending[j].id < app.pending[i].id);
        }
        lemma_first_index_at(app.pending, holds, i);
        assert(app.pending.remove(i) =~= without(app.pending, i));
    }
    if is_nowhere(app.pending, id, content) {
        lemma_first_index_none(app.pending, holds);
    }
}

/// `confirm_message_sent` takes away the message with this id and this text, and no other.
pub proof fn law_confirm_message_sent(app: &mut App, message_id: u64, content: &str, i: int)
    requires
        old(app)@.wf(),
        call_ensures(App::confirm_message_sent, (app, message_id, content), ()),
    ensures
        is_at(old(app)@.pending, i, message_id, content@) ==> final(app)@.pending == without(
            old(app)@.pending,
            i,
        ),
        is_nowhere(old(app)@.pending, message_id, content@) ==> final(app)@.pending
            == old(app)@.pending,
        final(app)@.next_id == old(app)@.next_id,
        final(app)@.history == old(app)@.history,
        rest_stays(old(app)@, final(app)@),
{
    law_confirming(app@, message_id, content@, i);
}

/// A message is overdue exactly if it was sent more than five seconds ago, so once it is overdue
/// it stays so.
pub proof fn law_overdue(message: PendingView, now: u128, later: u128)
    ensures
        is_overdue(now)(message) <==> now > message.timestamp + 5_000_000_000,
        now <= later && is_overdue(now)(message) ==> is_overdue(later)(message),
{
}

/// Every pending message that was sent more than five seconds ago is among those to send again.
pub proof fn law_overdue_messages_are_retried(app: AppView, i: int, now: u128)
    requires
        0 <= i < app.pending.len(),
        now - app.pending[i].timestamp > 5_000_000_000,
    ensures
        app.pending.filter(is_overdue(now)).contains(app.pending[i]),
{
    assert(is_overdue(now)(app.pending[i]));
    app.pending.lemma_filter_contains(is_overdue(now), i);
}

/// `get_messages_to_retry` gives the messages that were sent more than five seconds ago: each of
/// them, and no other.
pub proof fn law_get_messages_to_retry(
    app: App,
    now: u128,
    messages: Vec<PendingMessage>,
    message: PendingView,
)
    requires
        call_ensures(App::get_messages_to_retry, (&app, now), messages),
    ensures
        pending_views(messages@).contains(message) <==> app@.pending.contains(message) && now
            - message.timestamp > 5_000_000_000,
{
    let overdue = is_overdue(now);
    let found = app@.pending.filter(overdue);
    if found.contains(message) {
        let i = choose|i: int| 0 <= i < found.len() && found[i] == message;
        app@.pending.lemma_filter_pred(overdue, i);
        app@.pending.lemma_filter_contains_rev(overdue, message);
    }
    if app@.pending.contains(message) && now - message.timestamp > 5_000_000_000 {
        let i = choose|i: int| 0 <= i < app@.pending.len() && app@.pending[i] == message;
        law_overdue_messages_are_retried(app@, i, now);
    }
}

/// `get_messages_to_retry` keeps the order of the messages, and gives none twice.
pub proof fn law_retries_are_in_order(app: App, now: u128, messages: Vec<PendingMessage>)
    requires
        app@.wf(),
        call_ensures(App::get_messages_to_retry, (&app, now), messages),
    ensures
        forall|i: int, j: int| 0 <= i < j < messages@.len() ==> messages@[i].id < messages@[j].id,
{
    let overdue = is_overdue(now);
    let found = app@.pending.filter(overdue);
    lemma_filter_keeps_order(app@.pending, overdue);
    assert(found == pending_views(messages@));
    assert forall|i: int, j: int| 0 <= i < j < messages@.len() implies messages@[i].id
        < messages@[j].id by {
        assert(found[i] == messages@[i]@);
        assert(found[j] == messages@[j]@);
        assert(comes_before(app@.pending, found[i], found[j]));
    }
}

/// One item stands somewhere before the other.
pub open spec fn comes_before<A>(items: Seq<A>, first: A, second: A) -> bool {
    exists|k: int, l: int| 0 <= k < l < items.len() && items[k] == first && items[l] == second
}

proof fn lemma_filter_keeps_order<A>(items: Seq<A>, keeps: spec_fn(A) -> bool)
    ensures
        forall|i: int, j: int|
            0 <= i < j < items.filter(keeps).len() ==> comes_before(
                items,
                #[trigger] items.filter(keeps)[i],
                #[trigger] items.filter(keeps)[j],
            ),
    decreases items.len(),
{
    reveal(Seq::filter);
    if items.len() > 0 {
        let rest = items.drop_last();
        let kept = rest.filter(keeps);
        let all = items.filter(keeps);
        lemma_filter_keeps_order(rest, keeps);
        assert forall|i: int, j: int| 0 <= i < j < all.len() implies comes_before(
            items,
            #[trigger] all[i],
            #[trigger] all[j],
        ) by {
            assert(all[i] == kept[i]);
            if j < kept.len() {
                assert(all[j] == kept[j]);
                assert(comes_before(rest, kept[i], kept[j]));
                let (k, l) = choose|k: int, l: int|
                    0 <= k < l < rest.len() && rest[k] == kept[i] && rest[l] == kept[j];
                assert(items[k] == kept[i] && items[l] == kept[j]);
            } else {
                assert(kept.contains(kept[i]));
                rest.lemma_filter_contains_rev(keeps, kept[i]);
                let k = choose|k: int| 0 <= k < rest.len() && rest[k] == kept[i];
                assert(items[k] == kept[i] && items[items.len() - 1] == all[j]);
            }
        }
    }
}

/// `check_for_echo` gives the id of the oldest message with the text, and nothing if there is none.
pub proof fn law_check_for_echo(app: App, received: &str, id: Option<u64>, i: int)
    requires
        call_ensures(App::check_for_echo, (&app, received), id),
    ensures
        is_first_at(app@.pending, i, received@) ==> id == Some(app@.pending[i].id),
        is_unsaid(app@.pending, received@) ==> id is None,
{
    let holds = says(received@);
    if is_first_at(app@.pending, i, received@) {
        lemma_first_index_at(app@.pending, holds, i);
    }
    if is_unsaid(app@.pending, received@) {
        lemma_first_index_none(app@.pending, holds);
    }
}

/// `record_answer` puts the answer down as sent, and remembers it as said by the bot.
pub proof fn law_record_answer(app: &mut App, answer: &str, now: u128, id: u64)
    requires
        old(app)@.next_id < u64::MAX,
        call_ensures(App::record_answer, (app, answer, now), id),
    ensures
        id == old(app)@.next_id,
        final(app)@.next_id == id + 1,
        final(app)@.pending == old(app)@.pending + seq![
            PendingView { id, content: answer@, timestamp: now },
        ],
        history_grows(old(app)@.history, final(app)@.history, "brok"@ + ": "@ + answer@),
        rest_stays(old(app)@, final(app)@),
{
    law_sending(app@, answer@, now);
    law_remembering(app@.sending(answer@, now), "brok"@, answer@);
}

/// A message that is sent again leaves its place and is put last, under a new id and with the new
/// time. Where it is pending no more, it is put last all the same, unless it has the very id that
/// is given out next: then it is taken for seen at once.
pub proof fn law_retrying(app: AppView, message: PendingView, now: u128, i: int)
    requires
        app.wf(),
        app.next_id < u64::MAX,
    ensures
        is_at(app.pending, i, message.id, message.content) ==> app.retrying(message, now).pending
            == without(app.pending, i) + seq![
            PendingView { id: app.next_id, content: message.content, timestamp: now },
        ],
        is_nowhere(app.pending, message.id, message.content) && message.id != app.next_id
            ==> app.retrying(message, now).pending == app.pending + seq![
            PendingView { id: app.next_id, content: message.content, timestamp: now },
        ],
        message.id == app.next_id ==> app.retrying(message, now).pending == app.pending,
        app.retrying(message, now).next_id == app.next_id + 1,
        app.retrying(message, now).history == app.history,
        rest_stays(app, app.retrying(message, now)),
{
    let last = PendingView { id: app.next_id, content: message.content, timestamp: now };
    let sent = app.sending(message.content, now);
    law_sending(app, message.content, now);
    assert(sent.wf()) by {
        assert forall|j: int| 0 <= j < app.pending.len() implies sent.pending[j]
            == app.pending[j] by {}
    }
    law_confirming(sent, message.id, message.content, i);
    if message.id == app.next_id {
        let n = app.pending.len() as int;
        law_confirming(sent, message.id, message.content, n);
        assert(sent.pending[n] == last);
        assert(without(sent.pending, n) =~= app.pending);
    }
    if is_at(app.pending, i, message.id, message.content) {
        assert(sent.pending[i] == app.pending[i]);
        assert(without(sent.pending, i) =~= without(app.pending, i) + seq![last]);
    }
    if is_nowhere(app.pending, message.id, message.content) && message.id != app.next_id {
        assert forall|j: int| 0 <= j < sent.pending.len() implies (#[trigger] sent.pending[j]).id
            != message.id || sent.pending[j].content != message.content by {
            if j < app.pending.len() {
                assert(sent.pending[j] == app.pending[j]);
            }
        }
    }
}

/// `retry_message` moves a pending message to the end, under a new id and with the new time.
pub proof fn law_retry_message(
    app: &mut App,
    message: &PendingMessage,
    now: u128,
    id: u64,
    i: int,
)
    requires
        old(app)@.wf(),
        old(app)@.next_id < u64::MAX,
        call_ensures(App::retry_message, (app, message, now), id),
    ensures
        id == old(app)@.next_id,
        final(app)@.next_id == id + 1,
        is_at(old(app)@.pending, i, message.id, message.content@) ==> final(app)@.pending
            == without(old(app)@.pending, i) + seq![
            PendingView { id, content: message.content@, timestamp: now },
        ],
        is_nowhere(old(app)@.pending, message.id, message.content@) && message.id != id
            ==> final(app)@.pending == old(app)@.pending + seq![
            PendingView { id, content: message.content@, timestamp: now },
        ],
        message.id == id ==> final(app)@.pending == old(app)@.pending,
        final(app)@.history == old(app)@.history,
        rest_stays(old(app)@, final(app)@),
{
    law_retrying(app@, message@, now, i);
}

/// A message that comes in is remembered, whoever sent it. One of the bot's own settles the oldest
/// pending message with its text; one of others settles none.
pub proof fn law_receiving(app: AppView, sender: Seq<char>, message: Seq<char>, i: int)
    ensures
        history_grows(
            app.history,
            app.receiving(sender, message).history,
            sender + ": "@ + message,
        ),
        sender != "brok"@ ==> app.receiving(sender, message).pending == app.pending,
        sender == "brok"@ && is_first_at(app.pending, i, message) ==> app.receiving(
            sender,
            message,
        ).pending == without(app.pending, i),
        is_unsaid(app.pending, message) ==> app.receiving(sender, message).pending == app.pending,
        app.receiving(sender, message).next_id == app.next_id,
        rest_stays(app, app.receiving(sender, message)),
{
    let holds = says(message);
    law_remembering(app, sender, message);
    if is_first_at(app.pending, i, message) {
        lemma_first_index_at(app.pending, holds, i);
        assert(app.pending.remove(i) =~= without(app.pending, i));
    }
    if is_unsaid(app.pending, message) {
        lemma_first_index_none(app.pending, holds);
    }
}

/// `receive_message` remembers the message, and takes one of the bot's own for seen.
pub proof fn law_receive_message(
    app: &mut App,
    sender: &str,
    message: &str,
    prompt: Option<String>,
    i: int,
)
    requires
        call_ensures(App::receive_message, (app, sender, message), prompt),
    ensures
        history_grows(old(app)@.history, final(app)@.history, sender@ + ": "@ + message@),
        sender@ != "brok"@ ==> final(app)@.pending == old(app)@.pending,
        sender@ == "brok"@ && is_first_at(old(app)@.pending, i, message@) ==> final(app)@.pending
            == without(old(app)@.pending, i),
        is_unsaid(old(app)@.pending, message@) ==> final(app)@.pending == old(app)@.pending,
        final(app)@.next_id == old(app)@.next_id,
        rest_stays(old(app)@, final(app)@),
{
    law_receiving(app@, sender@, message@, i);
}

/// `receive_message` gives the prompt that `directed_prompt` finds in the message.
pub proof fn law_received_prompt(
    app: &mut App,
    sender: &str,
    message: &str,
    prompt: Option<String>,
    directed: Option<String>,
)
    requires
        call_ensures(App::receive_message, (app, sender, message), prompt),
        call_ensures(directed_prompt, (message,), directed),
    ensures
        prompt is Some <==> directed is Some,
        prompt matches Some(p) ==> p@ == directed->0@,
{
}

// Users.

/// The users that are known are those whose names were read, and nothing else changes.
pub proof fn law_knowing(app: AppView, names: Seq<Seq<char>>, name: Seq<char>)
    ensures
        app.knowing(names).users.contains(name) <==> names.contains(name),
        app.knowing(names).users.no_duplicates(),
        app.knowing(names).history == app.history,
        app.knowing(names).pending == app.pending,
        app.knowing(names).next_id == app.next_id,
        app.knowing(names).endpoint == app.endpoint,
{
    law_users_are_those_read(names, name);
}

/// `load_available_users` takes each name that was read once, in the order in which they were read
/// first; where none could be read, it hands on the error and changes nothing.
pub proof fn law_load_available_users(
    app: &mut App,
    listing: Result<Vec<String>, String>,
    loaded: Result<(), String>,
    name: Seq<char>,
)
    requires
        old(app)@.wf(),
        call_ensures(App::load_available_users, (app, listing), loaded),
    ensures
        loaded is Ok <==> listing is Ok,
        listing matches Ok(names) ==> final(app)@.users == distinct(texts(names@)) && (
        final(app)@.users.contains(name) <==> texts(names@).contains(name)),
        listing matches Err(error) ==> (loaded matches Err(e) && e@ == error@) && final(app)@.users
            == old(app)@.users,
        final(app)@.users.no_duplicates(),
        final(app)@.history == old(app)@.history,
        final(app)@.pending == old(app)@.pending,
        final(app)@.next_id == old(app)@.next_id,
        final(app)@.endpoint == old(app)@.endpoint,
{
    if let Ok(names) = listing {
        law_knowing(app@, texts(names@), name);
    }
}

/// A name that was read before is passed over, and a new one is put behind the others.
pub proof fn law_distinct_names(names: Seq<Seq<char>>, name: Seq<char>)
    ensures
        distinct(Seq::empty()) == Seq::<Seq<char>>::empty(),
        names.contains(name) ==> distinct(names.push(name)) == distinct(names),
        !names.contains(name) ==> distinct(names.push(name)) == distinct(names) + seq![name],
{
    law_users_are_those_read(names, name);
    assert(names.push(name).drop_last() =~= names);
    assert(distinct(names).push(name) =~= distinct(names) + seq![name]);
}

/// `detect_users_in_message` gives the known users whose names stand in the message: each of them,
/// and no other.
pub proof fn law_detect_users(app: App, message: &str, users: Vec<String>, name: Seq<char>)
    requires
        call_ensures(App::detect_users_in_message, (&app, message), users),
    ensures
        texts(users@).contains(name) <==> app@.users.contains(name) && !lacks(message@, name),
        texts(users@).len() <= app@.users.len(),
{
    law_detected_users(app@, message@, name);
    law_has_text(message@, name);
    app@.users.lemma_filter_len(stands_in(message@));
}

/// `detect_users_in_message` keeps the order of the users.
pub proof fn law_detected_users_are_in_order(
    app: App,
    message: &str,
    users: Vec<String>,
    i: int,
    j: int,
)
    requires
        call_ensures(App::detect_users_in_message, (&app, message), users),
        0 <= i < j < users@.len(),
    ensures
        comes_before(app@.users, users@[i]@, users@[j]@),
{
    let found = app@.users.filter(stands_in(message@));
    lemma_filter_keeps_order(app@.users, stands_in(message@));
    assert(found == texts(users@));
    assert(found[i] == users@[i]@);
    assert(found[j] == users@[j]@);
}

// The state.

/// A fresh memory is empty.
pub proof fn law_fresh(api_host: Seq<char>)
    ensures
        AppView::fresh(api_host).history.len() == 0,
        AppView::fresh(api_host).pending.len() == 0,
        AppView::fresh(api_host).users.len() == 0,
        AppView::fresh(api_host).next_id == 1,
        AppView::fresh(api_host).endpoint == "http://"@ + api_host + "/api/generate"@,
{
}

/// A new bot has seen nothing, gives out ids from one on, and asks the model at its host.
pub proof fn law_new(api_host: &str, app: App)
    requires
        call_ensures(App::new, (api_host,), app),
    ensures
        app@.history.len() == 0,
        app@.pending.len() == 0,
        app@.users.len() == 0,
        app@.next_id == 1,
        app@.endpoint == "http://"@ + api_host@ + "/api/generate"@,
        app@.wf(),
{
}

/// At most ten messages are remembered, no id is given out twice, and no user is known twice.
pub proof fn law_state(app: AppView)
    requires
        app.wf(),
    ensures
        app.history.len() <= 10,
        app.next_id >= 1,
        forall|i: int, j: int|
            0 <= i < j < app.pending.len() ==> app.pending[i].id < app.pending[j].id,
        forall|i: int| 0 <= i < app.pending.len() ==> (#[trigger] app.pending[i]).id < app.next_id,
        app.users.no_duplicates(),
{
}

/// What is read from the memory is what it holds.
pub proof fn law_readers(
    app: App,
    history: Vec<String>,
    pending: Vec<PendingMessage>,
    users: Vec<String>,
    id: u64,
    endpoint: &str,
    log: String,
)
    requires
        call_ensures(App::message_history, (&app,), &history),
        call_ensures(App::pending_messages, (&app,), &pending),
        call_ensures(App::available_users, (&app,), &users),
        call_ensures(App::next_message_id, (&app,), id),
        call_ensures(App::api_endpoint, (&app,), endpoint),
        call_ensures(App::chat_log, (&app,), log),
    ensures
        texts(history@) == app@.history,
        pending_views(pending@) == app@.pending,
        texts(users@) == app@.users,
        id == app@.next_id,
        endpoint@ == app@.endpoint,
        log@ == joined(app@.history, "\n"@),
{
}

/// A pending message is told by its id, its text and its time, and several in their order.
pub proof fn law_pending_views(messages: Seq<PendingMessage>)
    ensures
        pending_views(messages).len() == messages.len(),
        forall|i: int|
            0 <= i < messages.len() ==> (#[trigger] pending_views(messages)[i]).id == messages[i].id
                && pending_views(messages)[i].content == messages[i].content@ && pending_views(
                messages,
            )[i].timestamp == messages[i].timestamp,
{
}

} // verus!
