//! How what is remembered of a user is brought up to date, told by the texts that go in and out.

use vstd::prelude::*;

use crate::laws::text::{all_white, bare, law_trimmed};
use crate::model::UserInfo;
use crate::update::{
    finish_user_update, update_prompt, user_info, user_path, user_updates, FileWrite,
    UserUpdateRequest,
};

verus! {

/// A user's file has the user's name.
pub proof fn law_user_path(username: &str, path: String)
    requires
        call_ensures(user_path, (username,), path),
    ensures
        path@ == "users/"@ + username@,
{
}

/// What is known of a user is what stands in the file, and nothing where it cannot be read.
pub proof fn law_user_info(content: Result<String, String>, info: String)
    requires
        call_ensures(user_info, (content,), info),
    ensures
        content matches Ok(text) ==> info@ == text@,
        content is Err ==> info@.len() == 0,
{
}

/// Each user gets one order, with their name, what is known of them, and the chat, each whole.
pub proof fn law_user_updates(
    users: Vec<UserInfo>,
    chat_context: &str,
    updates: Vec<UserUpdateRequest>,
)
    requires
        call_ensures(user_updates, (&users, chat_context), updates),
    ensures
        updates@.len() == users@.len(),
        forall|i: int|
            0 <= i < users@.len() ==> (#[trigger] updates@[i]).username@ == users@[i].username@
                && updates@[i].old_info@ == users@[i].info@ && updates@[i].chat_context@
                == chat_context@,
{
    assert forall|i: int| 0 <= i < users@.len() implies (#[trigger] updates@[i]).username@
        == users@[i].username@ && updates@[i].old_info@ == users@[i].info@
        && updates@[i].chat_context@ == chat_context@ by {
        let view = updates@[i]@;
        assert(view.username == users@[i].username@);
    }
}

/// The model is told the user's name, what was known or that nothing was, and the chat, each whole.
pub proof fn law_update_prompt(request: UserUpdateRequest, known: Seq<char>, prompt: String)
    requires
        call_ensures(update_prompt, (&request,), prompt),
        all_white(request.old_info@) ==> known == "No previous information"@,
        !all_white(request.old_info@) ==> known == request.old_info@,
    ensures
        prompt@ == "This is the info for "@ + request.username@ + ". Only add information about "@
            + request.username@
            + " to this file. Update the user information based on the recent chat context. Return only the updated user information in a concise format.\n\nOld user info for "@
            + request.username@ + ": "@ + known
            + "\n\nKeep the new user info short. 5 sentences max.\n\nRecent chat context:\n"@
            + request.chat_context@ + "\n\nThe new user information for "@ + request.username@
            + " should be 5 sentences at max.\n\nPlease provide updated user information for "@
            + request.username@ + " only:"@,
{
}

/// A reply is written to the user's file, but for the white space around it; an error is not.
pub proof fn law_finish_user_update(
    before: Seq<char>,
    core: Seq<char>,
    after: Seq<char>,
    username: &str,
    reply: Result<String, String>,
    write: Option<FileWrite>,
)
    requires
        call_ensures(finish_user_update, (username, &reply), write),
        reply matches Ok(info) ==> info@ == before + core + after,
        all_white(before),
        all_white(after),
        bare(core),
    ensures
        reply is Ok ==> (write matches Some(file) && file.path@ == "users/"@ + username@
            && file.content@ == core),
        reply is Err ==> write is None,
{
    law_trimmed(before, core, after);
}

} // verus!
