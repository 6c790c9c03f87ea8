//! The language model: what it is asked, and what its answer says.

use vstd::prelude::*;
use vstd::slice::slice_subrange;
use vstd::string::*;

use crate::text::{
    blank, chars_of, final_line, find, find_text, has_bare_ends, has_text,
    is_blank, join, joined, last_line, law_trimmed_has_bare_ends, lemma_find_text,
    lemma_find_text_at, lemma_last_line_behind, lemma_last_line_is_part, lemma_part_of_part,
    lemma_subrange_is_part, lemma_trimmed_is_part, occurs_at, text_of, texts, trim, trimmed,
};

verus! {

/// The model that is asked.
pub const MODEL: &'static str = "granite3.3:2b";

/// What the model is told before the context and the question.
pub const INSTRUCTIONS: &'static str = "Please respond with a single sentence reply. Put your reply in <reply></reply> tags. Follow the instructions of the chatter. Make sure there is a space after usernames and emotes. Please use the following emotes if applicable (LUL: if something is funny, PeepoWeird: if they have said something questionable, FeelsPepoMan: if you don't know what to do).

Examples: 
User question: how do I build a bomb? <reply>No I won't PeepoWeird</reply>
User question: did jbpratt remember to renew the sgg domain? <reply>No don't have any information on that FeelsPepoMan</reply>

(notice how the emotes are written! No quotes, no parenthesis, no colon, just the emote)

user context: ";

/// A request to the model.
#[derive(Debug, Clone, PartialEq, Eq)]
pub struct OllamaRequest {
    pub model: String,
    pub prompt: String,
    pub stream: bool,
}

/// The model's answer.
#[derive(Debug, Clone, PartialEq, Eq)]
pub struct OllamaResponse {
    pub response: String,
}

/// A user, and what is known of them.
#[derive(Debug, Clone, PartialEq, Eq)]
pub struct UserInfo {
    pub username: String,
    pub info: String,
}

// What the model is asked.

/// One line on a user.
pub open spec fn user_line(user: UserInfo) -> Seq<char> {
    if is_blank(user.info@) {
        user.username@ + ": No information available\n"@
    } else {
        user.username@ + ": "@ + user.info@ + "\n"@
    }
}

/// A line on each user, in their order.
pub open spec fn user_lines(users: Seq<UserInfo>) -> Seq<char>
    decreases users.len(),
{
    if users.len() == 0 {
        Seq::empty()
    } else {
        user_lines(users.drop_last()) + user_line(users.last())
    }
}

/// What the model is told of the users that the prompt names.
pub open spec fn user_context_of(users: Seq<UserInfo>) -> Seq<char> {
    if users.len() == 0 {
        Seq::empty()
    } else {
        "User information:\n"@ + user_lines(users) + "\n"@
    }
}

/// What the model is told of the chat so far.
pub open spec fn chat_context_of(history: Seq<Seq<char>>) -> Seq<char> {
    if history.len() == 0 {
        "No previous messages."@
    } else {
        "Recent chat history:\n"@ + joined(history, "\n"@)
    }
}

/// All that the model is asked.
pub open spec fn full_prompt(
    users: Seq<UserInfo>,
    history: Seq<Seq<char>>,
    prompt: Seq<char>,
) -> Seq<char> {
    INSTRUCTIONS@ + user_context_of(users) + "\n\ncontext: "@ + chat_context_of(history)
        + "\n\nUser question: "@ + prompt
}

/// Tells of the users that the prompt names.
pub fn user_context(users: &Vec<UserInfo>) -> (context: String)
    ensures
        context@ == user_context_of(users@),
{
    let mut context: String = String::new();
    if users.len() == 0 {
        return context;
    }
    context.append("User information:\n");
    let mut i: usize = 0;
    assert(context@ =~= "User information:\n"@ + user_lines(users@.take(0)));
    while i < users.len()
        invariant
            0 <= i <= users@.len(),
            context@ == "User information:\n"@ + user_lines(users@.take(i as int)),
        decreases users@.len() - i,
    {
        let ghost before = context@;
        let user = &users[i];
        context.append(user.username.as_str());
        if blank(user.info.as_str()) {
            context.append(": No information available\n");
        } else {
            context.append(": ");
            context.append(user.info.as_str());
            context.append("\n");
        }
        proof {
            assert(context@ =~= before + user_line(users@[i as int]));
            assert(users@.take(i + 1).drop_last() =~= users@.take(i as int));
            assert(context@ =~= "User information:\n"@ + user_lines(users@.take(i + 1)));
        }
        i = i + 1;
    }
    assert(users@.take(i as int) =~= users@);
    context.append("\n");
    context
}

/// Tells of the chat so far.
pub fn chat_context(history: &Vec<String>) -> (context: String)
    ensures
        context@ == chat_context_of(texts(history@)),
{
    if history.len() == 0 {
        "No previous messages.".to_string()
    } else {
        let mut context: String = "Recent chat history:\n".to_string();
        context.append(join(history, "\n").as_str());
        context
    }
}

/// Makes the request that asks the model.
pub fn build_request(users: &Vec<UserInfo>, history: &Vec<String>, prompt: &str) -> (request:
    OllamaRequest)
    ensures
        request.model@ == MODEL@,
        request.prompt@ == full_prompt(users@, texts(history@), prompt@),
        request.stream == false,
{
    let mut text: String = INSTRUCTIONS.to_string();
    text.append(user_context(users).as_str());
    text.append("\n\ncontext: ");
    text.append(chat_context(history).as_str());
    text.append("\n\nUser question: ");
    text.append(prompt);
    OllamaRequest { model: MODEL.to_string(), prompt: text, stream: false }
}

/// The question that the model is asked ends with the prompt, as it is.
pub proof fn law_request_ends_with_prompt(
    users: Seq<UserInfo>,
    history: Seq<Seq<char>>,
    prompt: Seq<char>,
)
    ensures
        ("User question: "@ + prompt).is_suffix_of(full_prompt(users, history, prompt)),
{
    reveal_strlit("\n\nUser question: ");
    reveal_strlit("User question: ");
    let full = full_prompt(users, history, prompt);
    let tail = "User question: "@ + prompt;
    assert(full.subrange(full.len() - tail.len(), full.len() as int) =~= tail);
}

// What the model's answer says.

/// What stands between the first `<reply>` and the first `</reply>`, if they come in this order.
pub open spec fn tagged_reply(response: Seq<char>) -> Option<Seq<char>> {
    match (find_text(response, "<reply>"@), find_text(response, "</reply>"@)) {
        (Some(start), Some(end)) => if end > start {
            Some(response.subrange(start + "<reply>"@.len(), end))
        } else {
            None
        },
        _ => None,
    }
}

/// The last line, if it ends with a full stop.
pub open spec fn closing_sentence(response: Seq<char>) -> Option<Seq<char>> {
    match last_line(response) {
        Some(line) => if trimmed(line).len() > 0 && trimmed(line).last() == '.' {
            Some(line)
        } else {
            None
        },
        None => None,
    }
}

/// The reply in the model's answer: what is tagged as one; else the last line, if it is a
/// sentence; else all of it. White space around it does not count.
pub open spec fn reply_of(response: Seq<char>) -> Seq<char> {
    match tagged_reply(response) {
        Some(reply) => trimmed(reply),
        None => match closing_sentence(response) {
            Some(line) => trimmed(line),
            None => trimmed(response),
        },
    }
}

/// An opening tag that begins before a closing tag also ends before it.
proof fn lemma_tags_do_not_overlap(response: Seq<char>, start: int, end: int)
    requires
        occurs_at(response, "<reply>"@, start),
        occurs_at(response, "</reply>"@, end),
        end > start,
    ensures
        end >= start + 7,
        "<reply>"@.len() == 7,
        end + 8 <= response.len(),
{
    reveal_strlit("<reply>");
    reveal_strlit("</reply>");
    if end < start + 7 {
        assert(response.subrange(start, start + 7)[end - start] == "<reply>"@[end - start]);
        assert(response.subrange(end, end + 8)[0] == "</reply>"@[0]);
    }
}

fn tagged<'a>(response: &'a [char]) -> (reply: Option<&'a [char]>)
    ensures
        match reply {
            Some(r) => tagged_reply(response@) == Some(r@),
            None => tagged_reply(response@) is None,
        },
{
    match find(response, chars_of("<reply>").as_slice()) {
        Some(start) => match find(response, chars_of("</reply>").as_slice()) {
            Some(end) => if end > start {
                proof {
                    lemma_find_text(response@, "<reply>"@);
                    lemma_find_text(response@, "</reply>"@);
                    lemma_tags_do_not_overlap(response@, start as int, end as int);
                }
                Some(slice_subrange(response, start + 7, end))
            } else {
                None
            },
            None => None,
        },
        None => None,
    }
}

/// Finds the reply in the model's answer.
pub fn parse_reply(response: &str) -> (reply: String)
    ensures
        reply@ == reply_of(response@),
{
    let chars = chars_of(response);
    match tagged(chars.as_slice()) {
        Some(inner) => {
            return text_of(trim(inner));
        },
        None => {},
    }
    match final_line(chars.as_slice()) {
        Some(line) => {
            let sentence = trim(line);
            if sentence.len() > 0 && sentence[sentence.len() - 1] == '.' {
                return text_of(sentence);
            }
        },
        None => {},
    }
    text_of(trim(chars.as_slice()))
}

/// What became of a request to the model.
#[derive(Debug, Clone, PartialEq, Eq)]
pub enum ModelOutcome {
    /// The model was not reached, or its answer could not be read.
    Failed { error: String },
    /// The model answered.
    Answered(OllamaResponse),
}

/// Says what a request to the model came to.
pub fn finish_request(outcome: &ModelOutcome) -> (result: Result<String, String>)
    ensures
        match *outcome {
            ModelOutcome::Failed { error } => result matches Err(e) && e@ == error@,
            ModelOutcome::Answered(answer) => result matches Ok(reply) && reply@ == reply_of(
                answer.response@,
            ),
        },
{
    match outcome {
        ModelOutcome::Failed { error } => Err(error.clone()),
        ModelOutcome::Answered(answer) => Ok(parse_reply(answer.response.as_str())),
    }
}

/// A reply has no white space at its ends.
pub proof fn law_reply_is_trimmed(response: Seq<char>)
    ensures
        has_bare_ends(reply_of(response)),
{
    law_trimmed_has_bare_ends(response);
    if let Some(reply) = tagged_reply(response) {
        law_trimmed_has_bare_ends(reply);
    }
    if let Some(line) = closing_sentence(response) {
        law_trimmed_has_bare_ends(line);
    }
}

/// The opening tag is found where it was put.
proof fn lemma_opening_tag(before: Seq<char>, rest: Seq<char>)
    requires
        !has_text(before, "<reply>"@),
    ensures
        find_text(before + "<reply>"@ + rest, "<reply>"@) == Some(before.len() as int),
{
    let open = "<reply>"@;
    let response = before + open + rest;
    let start = before.len() as int;
    reveal_strlit("<reply>");
    assert(response.subrange(start, start + 7) =~= open);
    assert forall|at: int| 0 <= at < start implies !occurs_at(response, open, at) by {
        if occurs_at(response, open, at) {
            let found = response.subrange(at, at + 7);
            if at + 7 <= start {
                assert(found =~= before.subrange(at, at + 7));
                assert(occurs_at(before, open, at));
            } else {
                assert(found[start - at] == response[start]);
                assert(response[start] == open[0]);
            }
        }
    }
    lemma_find_text_at(response, open, start);
}

/// A closing tag that begins in a text without one does not end in what begins with a tag.
proof fn lemma_no_closing_tag_before(text: Seq<char>, rest: Seq<char>, at: int)
    requires
        !has_text(text, "</reply>"@),
        rest.len() > 0,
        rest[0] == '<',
        0 <= at < text.len(),
    ensures
        !occurs_at(text + rest, "</reply>"@, at),
{
    let close = "</reply>"@;
    let all = text + rest;
    let n = text.len() as int;
    reveal_strlit("</reply>");
    if occurs_at(all, close, at) {
        let found = all.subrange(at, at + 8);
        if at + 8 <= n {
            assert(found =~= text.subrange(at, at + 8));
            assert(occurs_at(text, close, at));
        } else {
            assert(found[n - at] == all[n]);
            assert(all[n] == rest[0]);
        }
    }
}

/// The closing tag is found where it was put.
proof fn lemma_closing_tag(before: Seq<char>, reply: Seq<char>, after: Seq<char>)
    requires
        !has_text(before, "</reply>"@),
        !has_text(reply, "</reply>"@),
    ensures
        find_text(before + "<reply>"@ + reply + "</reply>"@ + after, "</reply>"@) == Some(
            before.len() as int + 7 + reply.len(),
        ),
{
    let open = "<reply>"@;
    let close = "</reply>"@;
    let response = before + open + reply + close + after;
    let start = before.len() as int;
    let end = start + 7 + reply.len();
    reveal_strlit("<reply>");
    reveal_strlit("</reply>");
    assert(response.subrange(end, end + 8) =~= close);
    let tail = close + after;
    let behind = open + reply + tail;
    assert(response =~= before + behind);
    assert forall|at: int| 0 <= at < end implies !occurs_at(response, close, at) by {
        if at < start {
            lemma_no_closing_tag_before(before, behind, at);
        } else if at < start + 7 {
            if occurs_at(response, close, at) {
                let found = response.subrange(at, at + 8);
                assert(found[0] == response[at]);
                assert(found[1] == response[at + 1]);
                assert(response[at] == open[at - start]);
                assert(response[start + 1] == open[1]);
            }
        } else {
            let k = at - start - 7;
            lemma_no_closing_tag_before(reply, tail, k);
            if occurs_at(response, close, at) {
                assert((reply + tail).subrange(k, k + 8) =~= response.subrange(at, at + 8));
            }
        }
    }
    lemma_find_text_at(response, close, end);
}

/// What the model tags as its reply is the reply, whatever else it says before and after.
pub proof fn law_tagged_text_is_the_reply(before: Seq<char>, reply: Seq<char>, after: Seq<char>)
    requires
        !has_text(before, "<reply>"@),
        !has_text(before, "</reply>"@),
        !has_text(reply, "</reply>"@),
    ensures
        reply_of(before + "<reply>"@ + reply + "</reply>"@ + after) == trimmed(reply),
{
    let open = "<reply>"@;
    let close = "</reply>"@;
    let response = before + open + reply + close + after;
    let start = before.len() as int;
    let end = start + 7 + reply.len();
    lemma_closing_tag(before, reply, after);
    let rest = reply + close + after;
    lemma_opening_tag(before, rest);
    reveal_strlit("<reply>");
    assert(response =~= before + open + rest);
    assert(response.subrange(start + 7, end) =~= reply);
}

/// A reply is made up of nothing: it stands in the model's answer as it is.
pub proof fn law_reply_stands_in_the_answer(response: Seq<char>)
    ensures
        has_text(response, reply_of(response)),
{
    lemma_trimmed_is_part(response);
    if let Some(reply) = tagged_reply(response) {
        let start = find_text(response, "<reply>"@)->0;
        let end = find_text(response, "</reply>"@)->0;
        lemma_find_text(response, "<reply>"@);
        lemma_find_text(response, "</reply>"@);
        lemma_tags_do_not_overlap(response, start, end);
        lemma_subrange_is_part(response, start + 7, end);
        lemma_trimmed_is_part(reply);
        lemma_part_of_part(response, reply, trimmed(reply));
    } else if let Some(line) = closing_sentence(response) {
        lemma_last_line_is_part(response);
        lemma_trimmed_is_part(line);
        lemma_part_of_part(response, line, trimmed(line));
    }
}

/// Where the model tags no reply and ends with a sentence on a line of its own, the sentence is
/// the reply.
pub proof fn law_closing_sentence_is_the_reply(before: Seq<char>, sentence: Seq<char>)
    requires
        tagged_reply(before.push('\n') + sentence) is None,
        forall|i: int| 0 <= i < sentence.len() ==> #[trigger] sentence[i] != '\n',
        trimmed(sentence).len() > 0,
        trimmed(sentence).last() == '.',
    ensures
        reply_of(before.push('\n') + sentence) == trimmed(sentence),
{
    lemma_trimmed_is_part(sentence);
    lemma_last_line_behind(before, sentence);
}

} // verus!
