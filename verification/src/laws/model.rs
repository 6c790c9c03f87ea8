//! What the model is asked and what its answer says, told by the parts of the texts.

use vstd::prelude::*;

use crate::laws::text::{
    all_white, bare, first_behind, free_of, lacks, law_find_text_at, law_has_text, law_last_line,
    law_trimmed,
};
use crate::model::{
    build_request, chat_context, finish_request, law_tagged_text_is_the_reply, parse_reply,
    tagged_reply, user_context, user_lines, ModelOutcome, OllamaRequest, UserInfo,
};
use crate::text::{joined, last_line, texts, trimmed};

verus! {

// What the model is asked.

/// Each user is told of in a line of their own, in their order, with what is known of them or that
/// nothing is.
pub proof fn law_user_lines(left: Seq<UserInfo>, user: UserInfo)
    ensures
        user_lines(Seq::empty()) == Seq::<char>::empty(),
        all_white(user.info@) ==> user_lines(left.push(user)) == user_lines(left) + (
        user.username@ + ": No information available\n"@),
        !all_white(user.info@) ==> user_lines(left.push(user)) == user_lines(left) + (
        user.username@ + ": "@ + user.info@ + "\n"@),
{
    assert(left.push(user).drop_last() =~= left);
    assert(left.push(user).last() == user);
}

/// `user_context` puts a heading before the lines and an empty line behind them, and tells nothing
/// where there is no user.
pub proof fn law_user_context(users: Vec<UserInfo>, context: String)
    requires
        call_ensures(user_context, (&users,), context),
    ensures
        users@.len() == 0 ==> context@.len() == 0,
        users@.len() > 0 ==> context@ == "User information:\n"@ + user_lines(users@) + "\n"@,
{
}

/// `chat_context` puts a heading before the lines of the chat, or says that there are none.
pub proof fn law_chat_context(history: Vec<String>, context: String)
    requires
        call_ensures(chat_context, (&history,), context),
    ensures
        history@.len() == 0 ==> context@ == "No previous messages."@,
        history@.len() > 0 ==> context@ == "Recent chat history:\n"@ + joined(
            Seq::new(history@.len(), |i: int| history@[i]@),
            "\n"@,
        ),
{
    assert(Seq::new(history@.len(), |i: int| history@[i]@) =~= texts(history@));
}

/// `build_request` asks the model with the instructions, the users, the chat and the prompt, each
/// whole and in this order.
pub proof fn law_build_request(
    users: Vec<UserInfo>,
    history: Vec<String>,
    prompt: &str,
    request: OllamaRequest,
    told_of_users: String,
    told_of_chat: String,
)
    requires
        call_ensures(build_request, (&users, &history, prompt), request),
        call_ensures(user_context, (&users,), told_of_users),
        call_ensures(chat_context, (&history,), told_of_chat),
    ensures
        request.model@ == "granite3.3:2b"@,
        !request.stream,
        request.prompt@ == "Please respond with a single sentence reply. Put your reply in <reply></reply> tags. Follow the instructions of the chatter. Make sure there is a space after usernames and emotes. Please use the following emotes if applicable (LUL: if something is funny, PeepoWeird: if they have said something questionable, FeelsPepoMan: if you don't know what to do).

Examples: 
User question: how do I build a bomb? <reply>No I won't PeepoWeird</reply>
User question: did jbpratt remember to renew the sgg domain? <reply>No don't have any information on that FeelsPepoMan</reply>

(notice how the emotes are written! No quotes, no parenthesis, no colon, just the emote)

user context: "@ + told_of_users@ + "\n\ncontext: "@ + told_of_chat@ + "\n\nUser question: "@
            + prompt@,
{
}

// What the model's answer says.

/// No reply is tagged: one of the tags is missing, or the closing one comes first.
pub open spec fn is_untagged(response: Seq<char>) -> bool {
    ||| lacks(response, "<reply>"@)
    ||| lacks(response, "</reply>"@)
    ||| exists|before_open: Seq<char>, before_close: Seq<char>|
        #![trigger first_behind(response, before_open, "<reply>"@), first_behind(response, before_close, "</reply>"@)]
        first_behind(response, before_open, "<reply>"@) && first_behind(
            response,
            before_close,
            "</reply>"@,
        ) && before_close.len() <= before_open.len()
}

proof fn lemma_untagged(response: Seq<char>)
    requires
        is_untagged(response),
    ensures
        tagged_reply(response) is None,
{
    law_has_text(response, "<reply>"@);
    law_has_text(response, "</reply>"@);
    if !lacks(response, "<reply>"@) && !lacks(response, "</reply>"@) {
        let (before_open, before_close) = choose|before_open: Seq<char>, before_close: Seq<char>|
            #![trigger first_behind(response, before_open, "<reply>"@), first_behind(response, before_close, "</reply>"@)]
            first_behind(response, before_open, "<reply>"@) && first_behind(
                response,
                before_close,
                "</reply>"@,
            ) && before_close.len() <= before_open.len();
        law_find_text_at(response, before_open, "<reply>"@);
        law_find_text_at(response, before_close, "</reply>"@);
    }
}

/// What stands between the first tags, but for the white space around it, is the reply.
pub proof fn law_parse_tagged(
    before: Seq<char>,
    left: Seq<char>,
    core: Seq<char>,
    right: Seq<char>,
    after: Seq<char>,
    response: &str,
    reply: String,
)
    requires
        call_ensures(parse_reply, (response,), reply),
        response@ == before + "<reply>"@ + (left + core + right) + "</reply>"@ + after,
        lacks(before, "<reply>"@),
        lacks(before, "</reply>"@),
        lacks(left + core + right, "</reply>"@),
        all_white(left),
        all_white(right),
        bare(core),
    ensures
        reply@ == core,
{
    law_has_text(before, "<reply>"@);
    law_has_text(before, "</reply>"@);
    law_has_text(left + core + right, "</reply>"@);
    law_tagged_text_is_the_reply(before, left + core + right, after);
    law_trimmed(left, core, right);
}

/// The last line of a text, by its parts: what stands before it, the white space around it, and
/// its end.
pub open spec fn ends_with_line(
    text: Seq<char>,
    before: Seq<char>,
    left: Seq<char>,
    core: Seq<char>,
    right: Seq<char>,
    end: Seq<char>,
) -> bool {
    let line = left + core + right;
    &&& text == before + line + end
    &&& before.len() > 0 ==> before[before.len() - 1] == '\n'
    &&& free_of(line, '\n')
    &&& all_white(left)
    &&& all_white(right)
    &&& bare(core)
    &&& {
        ||| end.len() == 0 && line.len() > 0
        ||| end == "\n"@ && (line.len() > 0 ==> line[line.len() - 1] != '\r')
        ||| end == "\r\n"@
    }
}

proof fn lemma_ends_with_line(
    text: Seq<char>,
    before: Seq<char>,
    left: Seq<char>,
    core: Seq<char>,
    right: Seq<char>,
    end: Seq<char>,
)
    requires
        ends_with_line(text, before, left, core, right, end),
    ensures
        last_line(text) == Some(left + core + right),
        trimmed(left + core + right) == core,
{
    let line = left + core + right;
    law_last_line(before, line);
    law_trimmed(left, core, right);
    if end.len() == 0 {
        assert(before + line + end =~= before + line);
    }
}

/// Where no reply is tagged and the last line ends with a full stop, that line is the reply.
pub proof fn law_parse_sentence(
    before: Seq<char>,
    left: Seq<char>,
    core: Seq<char>,
    right: Seq<char>,
    end: Seq<char>,
    response: &str,
    reply: String,
)
    requires
        call_ensures(parse_reply, (response,), reply),
        is_untagged(response@),
        ends_with_line(response@, before, left, core, right, end),
        core.len() > 0,
        core[core.len() - 1] == '.',
    ensures
        reply@ == core,
{
    lemma_untagged(response@);
    lemma_ends_with_line(response@, before, left, core, right, end);
}

/// Where no reply is tagged and the last line does not end with a full stop, the whole answer is
/// the reply, but for the white space around it.
pub proof fn law_parse_whole(
    before: Seq<char>,
    left: Seq<char>,
    core: Seq<char>,
    right: Seq<char>,
    end: Seq<char>,
    white: Seq<char>,
    whole: Seq<char>,
    behind: Seq<char>,
    response: &str,
    reply: String,
)
    requires
        call_ensures(parse_reply, (response,), reply),
        is_untagged(response@),
        response@.len() > 0 ==> ends_with_line(response@, before, left, core, right, end) && (
        core.len() > 0 ==> core[core.len() - 1] != '.'),
        response@ == white + whole + behind,
        all_white(white),
        all_white(behind),
        bare(whole),
    ensures
        reply@ == whole,
{
    lemma_untagged(response@);
    if response@.len() > 0 {
        lemma_ends_with_line(response@, before, left, core, right, end);
    } else {
        law_last_line(Seq::empty(), Seq::empty());
        assert(response@ =~= Seq::<char>::empty());
    }
    law_trimmed(white, whole, behind);
}

/// `finish_request` hands on an error as it is, and of an answer the reply that `parse_reply` finds.
pub proof fn law_finish_request(
    outcome: ModelOutcome,
    result: Result<String, String>,
    text: &str,
    reply: String,
)
    requires
        call_ensures(finish_request, (&outcome,), result),
        outcome matches ModelOutcome::Answered(answer) ==> text@ == answer.response@
            && call_ensures(parse_reply, (text,), reply),
    ensures
        match outcome {
            ModelOutcome::Failed { error } => result matches Err(e) && e@ == error@,
            ModelOutcome::Answered(_) => result matches Ok(r) && r@ == reply@,
        },
{
}

} // verus!
