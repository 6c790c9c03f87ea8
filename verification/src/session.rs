//! What the bot remembers while it chats: the last messages, the messages that it sent and has
//! not seen yet, and the users that it knows.

use vstd::prelude::*;
use vstd::slice::slice_subrange;
use vstd::string::*;

use crate::list::{
    first_index, lemma_first_index, lemma_first_index_at, lemma_first_index_none, without_first,
};
use crate::text::{
    chars_of, contains, has_text, join, joined, matches_at, same_text, starts_with_text, text_of,
    texts,
};

verus! {

/// The bot's own name in the chat.
pub const BOT_ACCOUNT: &'static str = "brok";

/// The number of messages that are remembered.
pub const HISTORY_LEN: usize = 10;

/// The time, in nanoseconds, after which a message that was not seen is sent again.
pub const RETRY_AFTER: u128 = 5_000_000_000;

// Messages that were sent and not seen yet.

/// A message that was sent and not seen yet. Its timestamp counts nanoseconds on the caller's
/// clock, which never goes back.
#[derive(Debug, Clone, PartialEq, Eq)]
pub struct PendingMessage {
    pub id: u64,
    pub content: String,
    pub timestamp: u128,
}

/// A pending message by its text.
pub struct PendingView {
    pub id: u64,
    pub content: Seq<char>,
    pub timestamp: u128,
}

impl View for PendingMessage {
    type V = PendingView;

    open spec fn view(&self) -> PendingView {
        PendingView { id: self.id, content: self.content@, timestamp: self.timestamp }
    }
}

/// Some pending messages by their texts.
pub open spec fn pending_views(messages: Seq<PendingMessage>) -> Seq<PendingView> {
    messages.map_values(|m: PendingMessage| m@)
}

/// The messages with this id and this text.
pub open spec fn is_message(id: u64, content: Seq<char>) -> spec_fn(PendingView) -> bool {
    |m: PendingView| m.id == id && m.content == content
}

/// The messages with this text.
pub open spec fn says(content: Seq<char>) -> spec_fn(PendingView) -> bool {
    |m: PendingView| m.content == content
}

/// The messages that were sent more than five seconds ago.
pub open spec fn is_overdue(now: u128) -> spec_fn(PendingView) -> bool {
    |m: PendingView| now - m.timestamp > RETRY_AFTER
}

/// The ids grow along the list, and all of them were given out already.
pub open spec fn ids_in_order(pending: Seq<PendingView>, next_id: u64) -> bool {
    &&& forall|i: int| 0 <= i < pending.len() ==> 1 <= (#[trigger] pending[i]).id < next_id
    &&& forall|i: int, j: int| 0 <= i < j < pending.len() ==> pending[i].id < pending[j].id
}

// Messages that are remembered.

/// A message as it is remembered.
pub open spec fn history_line(sender: Seq<char>, message: Seq<char>) -> Seq<char> {
    sender + ": "@ + message
}

/// The history with one line more, and without its oldest line if there would be too many.
pub open spec fn remember(history: Seq<Seq<char>>, line: Seq<char>) -> Seq<Seq<char>> {
    let longer = history.push(line);
    if longer.len() > HISTORY_LEN {
        longer.drop_first()
    } else {
        longer
    }
}

// Users.

/// The names without those that came before.
pub open spec fn distinct(names: Seq<Seq<char>>) -> Seq<Seq<char>>
    decreases names.len(),
{
    if names.len() == 0 {
        Seq::empty()
    } else {
        let before = distinct(names.drop_last());
        if before.contains(names.last()) {
            before
        } else {
            before.push(names.last())
        }
    }
}

/// The names that stand in the message.
pub open spec fn stands_in(message: Seq<char>) -> spec_fn(Seq<char>) -> bool {
    |name: Seq<char>| has_text(message, name)
}

// Messages to the bot.

/// How a message begins that is meant for the bot.
pub open spec fn mention() -> Seq<char> {
    "@"@ + BOT_ACCOUNT@
}

/// What the bot is asked by a message that is meant for it: what stands behind its name and a
/// space, or the message as it is if there is no space.
pub open spec fn prompt_in(message: Seq<char>) -> Option<Seq<char>> {
    if !starts_with_text(message, mention()) {
        None
    } else if starts_with_text(message, mention() + " "@) {
        Some(message.skip((mention() + " "@).len() as int))
    } else {
        Some(message)
    }
}

// The state.

/// What the bot remembers.
pub struct App {
    message_history: Vec<String>,
    pending_messages: Vec<PendingMessage>,
    next_message_id: u64,
    available_users: Vec<String>,
    api_endpoint: String,
}

/// What the bot remembers, by its texts.
pub struct AppView {
    pub history: Seq<Seq<char>>,
    pub pending: Seq<PendingView>,
    pub next_id: u64,
    pub users: Seq<Seq<char>>,
    pub endpoint: Seq<char>,
}

impl View for App {
    type V = AppView;

    closed spec fn view(&self) -> AppView {
        AppView {
            history: texts(self.message_history@),
            pending: pending_views(self.pending_messages@),
            next_id: self.next_message_id,
            users: texts(self.available_users@),
            endpoint: self.api_endpoint@,
        }
    }
}

impl AppView {
    /// What always holds of the state.
    pub open spec fn wf(self) -> bool {
        &&& self.history.len() <= HISTORY_LEN
        &&& self.next_id >= 1
        &&& ids_in_order(self.pending, self.next_id)
        &&& self.users.no_duplicates()
    }

    /// The state before anything has happened.
    pub open spec fn fresh(api_host: Seq<char>) -> AppView {
        AppView {
            history: Seq::empty(),
            pending: Seq::empty(),
            next_id: 1,
            users: Seq::empty(),
            endpoint: "http://"@ + api_host + "/api/generate"@,
        }
    }

    /// The state after a message was remembered.
    pub open spec fn remembering(self, sender: Seq<char>, message: Seq<char>) -> AppView {
        AppView { history: remember(self.history, history_line(sender, message)), ..self }
    }

    /// The state after a message was put down as sent, under the next id.
    pub open spec fn sending(self, content: Seq<char>, now: u128) -> AppView {
        AppView {
            pending: self.pending.push(PendingView { id: self.next_id, content, timestamp: now }),
            next_id: (self.next_id + 1) as u64,
            ..self
        }
    }

    /// The state after the message with this id and this text was seen.
    pub open spec fn confirming(self, id: u64, content: Seq<char>) -> AppView {
        AppView { pending: without_first(self.pending, is_message(id, content)), ..self }
    }

    /// The state after a message came in. One of the bot's own is taken for the oldest message
    /// that it sent with that text, which is pending no more.
    pub open spec fn receiving(self, sender: Seq<char>, message: Seq<char>) -> AppView {
        let seen = if sender == BOT_ACCOUNT@ {
            AppView { pending: without_first(self.pending, says(message)), ..self }
        } else {
            self
        };
        seen.remembering(sender, message)
    }

    /// The state after a pending message was sent again, under a new id.
    pub open spec fn retrying(self, message: PendingView, now: u128) -> AppView {
        self.sending(message.content, now).confirming(message.id, message.content)
    }

    /// The state after the users were read anew.
    pub open spec fn knowing(self, names: Seq<Seq<char>>) -> AppView {
        AppView { users: distinct(names), ..self }
    }
}

proof fn lemma_texts_push(items: Seq<String>, item: String)
    ensures
        texts(items.push(item)) == texts(items).push(item@),
{
    assert(texts(items.push(item)) =~= texts(items).push(item@));
}

proof fn lemma_ids_after_removal(pending: Seq<PendingView>, next_id: u64, i: int)
    requires
        ids_in_order(pending, next_id),
        0 <= i < pending.len(),
    ensures
        ids_in_order(pending.remove(i), next_id),
{
    let left = pending.remove(i);
    assert forall|j: int| 0 <= j < left.len() implies 1 <= (#[trigger] left[j]).id < next_id by {
        assert(left[j] == if j < i {
            pending[j]
        } else {
            pending[j + 1]
        });
    }
    assert forall|j: int, k: int| 0 <= j < k < left.len() implies left[j].id < left[k].id by {
        assert(left[j] == if j < i {
            pending[j]
        } else {
            pending[j + 1]
        });
        assert(left[k] == if k < i {
            pending[k]
        } else {
            pending[k + 1]
        });
    }
}

proof fn lemma_ids_without_first(
    pending: Seq<PendingView>,
    next_id: u64,
    holds: spec_fn(PendingView) -> bool,
)
    requires
        ids_in_order(pending, next_id),
    ensures
        ids_in_order(without_first(pending, holds), next_id),
{
    lemma_first_index(pending, holds);
    if let Some(i) = first_index(pending, holds) {
        lemma_ids_after_removal(pending, next_id, i);
    }
}

/// The users that are known after a reading are those whose names were read, each once.
pub proof fn law_users_are_those_read(names: Seq<Seq<char>>, name: Seq<char>)
    ensures
        distinct(names).contains(name) <==> names.contains(name),
        distinct(names).no_duplicates(),
    decreases names.len(),
{
    if names.len() > 0 {
        let rest = names.drop_last();
        let before = distinct(rest);
        law_users_are_those_read(rest, name);
        law_users_are_those_read(rest, names.last());
        assert(names =~= rest.push(names.last()));
        assert(rest.push(names.last())[rest.len() as int] == names.last());
        assert(before.push(names.last())[before.len() as int] == names.last());
        if rest.contains(name) {
            let k = choose|k: int| 0 <= k < rest.len() && rest[k] == name;
            assert(names[k] == name);
            let j = choose|j: int| 0 <= j < before.len() && before[j] == name;
            assert(before.push(names.last())[j] == name);
        } else if names.contains(name) {
            let k = choose|k: int| 0 <= k < names.len() && names[k] == name;
            if k < rest.len() {
                assert(rest[k] == name);
            }
        } else {
            assert(names[names.len() - 1] == names.last());
        }
    }
}

impl App {
    /// A bot that has seen nothing yet, and asks the model at `api_host`.
    pub fn new(api_host: &str) -> (app: App)
        ensures
            app@ == AppView::fresh(api_host@),
            app@.wf(),
    {
        let mut api_endpoint: String = "http://".to_string();
        api_endpoint.append(api_host);
        api_endpoint.append("/api/generate");
        let app = App {
            message_history: Vec::new(),
            pending_messages: Vec::new(),
            next_message_id: 1,
            available_users: Vec::new(),
            api_endpoint,
        };
        proof {
            assert(app@.history =~= Seq::<Seq<char>>::empty());
            assert(app@.pending =~= Seq::<PendingView>::empty());
            assert(app@.users =~= Seq::<Seq<char>>::empty());
        }
        app
    }

    /// Remembers a message.
    pub fn add_message_to_history(&mut self, sender: &str, message: &str)
        requires
            old(self)@.wf(),
        ensures
            final(self)@ == old(self)@.remembering(sender@, message@),
            final(self)@.wf(),
    {
        let ghost before = self@;
        let mut line: String = sender.to_string();
        line.append(": ");
        line.append(message);
        proof {
            lemma_texts_push(self.message_history@, line);
        }
        self.message_history.push(line);
        if self.message_history.len() > HISTORY_LEN {
            let ghost longer = self.message_history@;
            self.message_history.remove(0);
            assert(texts(self.message_history@) =~= texts(longer).drop_first());
        }
        assert(self@.history == remember(before.history, history_line(sender@, message@)));
    }

    /// Puts a message down as sent, and says under which id.
    pub fn add_pending_message(&mut self, content: String, now: u128) -> (id: u64)
        requires
            old(self)@.wf(),
            old(self)@.next_id < u64::MAX,
        ensures
            id == old(self)@.next_id,
            final(self)@ == old(self)@.sending(content@, now),
            final(self)@.wf(),
    {
        let ghost before = self@;
        let id: u64 = self.next_message_id;
        self.next_message_id = self.next_message_id + 1;
        let message = PendingMessage { id, content, timestamp: now };
        let ghost messages = self.pending_messages@;
        self.pending_messages.push(message);
        assert(pending_views(self.pending_messages@) =~= pending_views(messages).push(message@));
        assert(self@.pending == before.pending.push(message@));
        id
    }

    /// Takes a message for seen, if there is one with this id and this text.
    pub fn confirm_message_sent(&mut self, message_id: u64, expected_content: &str)
        requires
            old(self)@.wf(),
        ensures
            final(self)@ == old(self)@.confirming(message_id, expected_content@),
            final(self)@.wf(),
    {
        let ghost before = self@;
        let ghost holds = is_message(message_id, expected_content@);
        proof {
            lemma_ids_without_first(before.pending, before.next_id, holds);
        }
        let mut i: usize = 0;
        while i < self.pending_messages.len()
            invariant
                0 <= i <= self.pending_messages@.len(),
                self@ == before,
                holds == is_message(message_id, expected_content@),
                forall|j: int| 0 <= j < i ==> !holds(#[trigger] before.pending[j]),
                before.wf(),
                ids_in_order(without_first(before.pending, holds), before.next_id),
            ensures
                forall|j: int| 0 <= j < i ==> !holds(#[trigger] before.pending[j]),
                0 <= i <= before.pending.len(),
                i < before.pending.len() ==> holds(before.pending[i as int]),
                self@ == before,
            decreases self.pending_messages@.len() - i,
        {
            assert(before.pending[i as int] == self.pending_messages@[i as int]@);
            let message = &self.pending_messages[i];
            if message.id == message_id && same_text(message.content.as_str(), expected_content) {
                break;
            }
            i = i + 1;
        }
        if i < self.pending_messages.len() {
            let ghost messages = self.pending_messages@;
            proof {
                lemma_first_index_at(before.pending, holds, i as int);
            }
            self.pending_messages.remove(i);
            assert(pending_views(self.pending_messages@) =~= pending_views(messages).remove(
                i as int,
            ));
        } else {
            proof {
                lemma_first_index_none(before.pending, holds);
            }
        }
    }

    /// The messages that were sent more than five seconds ago and not seen yet.
    pub fn get_messages_to_retry(&self, now: u128) -> (messages: Vec<PendingMessage>)
        ensures
            pending_views(messages@) == self@.pending.filter(is_overdue(now)),
    {
        let ghost overdue = is_overdue(now);
        let mut messages: Vec<PendingMessage> = Vec::new();
        let mut i: usize = 0;
        proof {
            reveal(Seq::filter);
            assert(self@.pending.take(0) =~= Seq::<PendingView>::empty());
            assert(pending_views(messages@) =~= Seq::<PendingView>::empty());
        }
        while i < self.pending_messages.len()
            invariant
                0 <= i <= self.pending_messages@.len(),
                overdue == is_overdue(now),
                pending_views(messages@) == self@.pending.take(i as int).filter(overdue),
            decreases self.pending_messages@.len() - i,
        {
            let message = &self.pending_messages[i];
            proof {
                let seen = self@.pending.take(i as int);
                assert(self@.pending.take(i + 1) =~= seen.push(message@));
                seen.lemma_filter_push(message@, overdue);
            }
            if now > message.timestamp && now - message.timestamp > RETRY_AFTER {
                let copy = PendingMessage {
                    id: message.id,
                    content: message.content.clone(),
                    timestamp: message.timestamp,
                };
                let ghost before = messages@;
                messages.push(copy);
                assert(pending_views(messages@) =~= pending_views(before).push(copy@));
            }
            i = i + 1;
        }
        assert(self@.pending.take(i as int) =~= self@.pending);
        messages
    }

    /// The id of the oldest message that was sent with this text and not seen yet.
    pub fn check_for_echo(&self, received_message: &str) -> (id: Option<u64>)
        ensures
            match first_index(self@.pending, says(received_message@)) {
                Some(i) => id == Some(self@.pending[i].id),
                None => id is None,
            },
    {
        let ghost holds = says(received_message@);
        let mut i: usize = 0;
        while i < self.pending_messages.len()
            invariant
                0 <= i <= self.pending_messages@.len(),
                holds == says(received_message@),
                forall|j: int| 0 <= j < i ==> !holds(#[trigger] self@.pending[j]),
            decreases self.pending_messages@.len() - i,
        {
            assert(self@.pending[i as int] == self.pending_messages@[i as int]@);
            let message = &self.pending_messages[i];
            if same_text(message.content.as_str(), received_message) {
                proof {
                    lemma_first_index_at(self@.pending, holds, i as int);
                }
                return Some(message.id);
            }
            i = i + 1;
        }
        proof {
            lemma_first_index_none(self@.pending, holds);
        }
        None
    }

    /// Takes the names that were read for the users that are known, each once. Where they could
    /// not be read, the users stay as they are.
    pub fn load_available_users(&mut self, listing: Result<Vec<String>, String>) -> (loaded: Result<
        (),
        String,
    >)
        requires
            old(self)@.wf(),
        ensures
            match listing {
                Ok(names) => loaded is Ok && final(self)@ == old(self)@.knowing(texts(names@)),
                Err(error) => loaded matches Err(e) && e@ == error@ && final(self)@ == old(self)@,
            },
            final(self)@.wf(),
    {
        match listing {
            Err(error) => Err(error),
            Ok(names) => {
                let mut users: Vec<String> = Vec::new();
                let mut i: usize = 0;
                assert(texts(users@) =~= distinct(texts(names@).take(0)));
                while i < names.len()
                    invariant
                        0 <= i <= names@.len(),
                        texts(users@) == distinct(texts(names@).take(i as int)),
                    decreases names@.len() - i,
                {
                    proof {
                        let seen = texts(names@).take(i + 1);
                        assert(seen.drop_last() =~= texts(names@).take(i as int));
                        assert(seen.last() == names@[i as int]@);
                    }
                    if !is_among(&users, names[i].as_str()) {
                        let name = names[i].clone();
                        proof {
                            lemma_texts_push(users@, name);
                        }
                        users.push(name);
                    }
                    i = i + 1;
                }
                assert(texts(names@).take(i as int) =~= texts(names@));
                proof {
                    law_users_are_those_read(texts(names@), Seq::empty());
                }
                self.available_users = users;
                Ok(())
            },
        }
    }

    /// The known users whose names stand in a message.
    pub fn detect_users_in_message(&self, message: &str) -> (users: Vec<String>)
        ensures
            texts(users@) == self@.users.filter(stands_in(message@)),
    {
        let ghost named = stands_in(message@);
        let chars = chars_of(message);
        let mut users: Vec<String> = Vec::new();
        let mut i: usize = 0;
        proof {
            reveal(Seq::filter);
            assert(self@.users.take(0) =~= Seq::<Seq<char>>::empty());
            assert(texts(users@) =~= Seq::<Seq<char>>::empty());
        }
        while i < self.available_users.len()
            invariant
                0 <= i <= self.available_users@.len(),
                chars@ == message@,
                named == stands_in(message@),
                texts(users@) == self@.users.take(i as int).filter(named),
            decreases self.available_users@.len() - i,
        {
            let user = &self.available_users[i];
            proof {
                let seen = self@.users.take(i as int);
                assert(self@.users.take(i + 1) =~= seen.push(user@));
                seen.lemma_filter_push(user@, named);
            }
            if contains(chars.as_slice(), chars_of(user.as_str()).as_slice()) {
                let name = user.clone();
                proof {
                    lemma_texts_push(users@, name);
                }
                users.push(name);
            }
            i = i + 1;
        }
        assert(self@.users.take(i as int) =~= self@.users);
        users
    }

    /// The messages that are remembered, oldest first.
    pub fn message_history(&self) -> (history: &Vec<String>)
        ensures
            texts(history@) == self@.history,
    {
        &self.message_history
    }

    /// The messages that are remembered, a line for each.
    pub fn chat_log(&self) -> (log: String)
        ensures
            log@ == joined(self@.history, "\n"@),
    {
        join(&self.message_history, "\n")
    }

    /// The messages that were sent and not seen yet, oldest first.
    pub fn pending_messages(&self) -> (pending: &Vec<PendingMessage>)
        ensures
            pending_views(pending@) == self@.pending,
    {
        &self.pending_messages
    }

    /// The id that the next message will get.
    pub fn next_message_id(&self) -> (id: u64)
        ensures
            id == self@.next_id,
    {
        self.next_message_id
    }

    /// The users that are known.
    pub fn available_users(&self) -> (users: &Vec<String>)
        ensures
            texts(users@) == self@.users,
    {
        &self.available_users
    }

    /// Where the model is asked.
    pub fn api_endpoint(&self) -> (endpoint: &str)
        ensures
            endpoint@ == self@.endpoint,
    {
        self.api_endpoint.as_str()
    }

    /// Puts an answer down as sent, remembers it, and says under which id.
    pub fn record_answer(&mut self, answer: &str, now: u128) -> (id: u64)
        requires
            old(self)@.wf(),
            old(self)@.next_id < u64::MAX,
        ensures
            id == old(self)@.next_id,
            final(self)@ == old(self)@.sending(answer@, now).remembering(BOT_ACCOUNT@, answer@),
            final(self)@.wf(),
    {
        let id: u64 = self.add_pending_message(answer.to_string(), now);
        self.add_message_to_history(BOT_ACCOUNT, answer);
        id
    }

    /// Puts a pending message down as sent again, and says under which new id.
    pub fn retry_message(&mut self, message: &PendingMessage, now: u128) -> (id: u64)
        requires
            old(self)@.wf(),
            old(self)@.next_id < u64::MAX,
        ensures
            id == old(self)@.next_id,
            final(self)@ == old(self)@.retrying(message@, now),
            final(self)@.wf(),
    {
        let id: u64 = self.add_pending_message(message.content.clone(), now);
        self.confirm_message_sent(message.id, message.content.as_str());
        id
    }

    /// Takes in a message, and says what the bot is asked by it, if it is asked anything.
    pub fn receive_message(&mut self, sender: &str, message: &str) -> (prompt: Option<String>)
        requires
            old(self)@.wf(),
        ensures
            final(self)@ == old(self)@.receiving(sender@, message@),
            final(self)@.wf(),
            match prompt_in(message@) {
                Some(text) => prompt matches Some(p) && p@ == text,
                None => prompt is None,
            },
    {
        if same_text(sender, BOT_ACCOUNT) {
            let ghost pending = self@.pending;
            match self.check_for_echo(message) {
                Some(id) => {
                    proof {
                        lemma_echo_is_the_message(pending, message@);
                    }
                    self.confirm_message_sent(id, message);
                },
                None => {},
            }
        }
        self.add_message_to_history(sender, message);
        directed_prompt(message)
    }
}

/// The oldest message with a text is the one that its id and its text lead to.
proof fn lemma_echo_is_the_message(pending: Seq<PendingView>, content: Seq<char>)
    ensures
        first_index(pending, says(content)) matches Some(i) ==> first_index(
            pending,
            is_message(pending[i].id, content),
        ) == Some(i),
{
    lemma_first_index(pending, says(content));
    if let Some(i) = first_index(pending, says(content)) {
        let holds = is_message(pending[i].id, content);
        assert forall|j: int| 0 <= j < i implies !holds(#[trigger] pending[j]) by {
            assert(!says(content)(pending[j]));
        }
        lemma_first_index_at(pending, holds, i);
    }
}

fn is_among(names: &Vec<String>, name: &str) -> (found: bool)
    ensures
        found == texts(names@).contains(name@),
{
    let mut i: usize = 0;
    while i < names.len()
        invariant
            0 <= i <= names@.len(),
            forall|j: int| 0 <= j < i ==> #[trigger] texts(names@)[j] != name@,
        decreases names@.len() - i,
    {
        assert(texts(names@)[i as int] == names@[i as int]@);
        if same_text(names[i].as_str(), name) {
            return true;
        }
        i = i + 1;
    }
    false
}

/// Says what the bot is asked by a message, if it is meant for the bot.
pub fn directed_prompt(message: &str) -> (prompt: Option<String>)
    ensures
        match prompt_in(message@) {
            Some(text) => prompt matches Some(p) && p@ == text,
            None => prompt is None,
        },
{
    let mut name: String = "@".to_string();
    name.append(BOT_ACCOUNT);
    let chars = chars_of(message);
    if !matches_at(chars.as_slice(), chars_of(name.as_str()).as_slice(), 0) {
        return None;
    }
    name.append(" ");
    let opening = chars_of(name.as_str());
    if matches_at(chars.as_slice(), opening.as_slice(), 0) {
        Some(text_of(slice_subrange(chars.as_slice(), opening.len(), chars.len())))
    } else {
        Some(message.to_string())
    }
}

} // verus!
