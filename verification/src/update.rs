//! What is remembered of a user, and how it is brought up to date.

use vstd::prelude::*;
use vstd::string::*;

use crate::model::UserInfo;
use crate::text::{blank, chars_of, is_blank, text_of, trim, trimmed};

verus! {

/// An order to bring up to date what is remembered of a user.
#[derive(Debug, Clone, PartialEq, Eq)]
pub struct UserUpdateRequest {
    pub username: String,
    pub old_info: String,
    pub chat_context: String,
}

/// An order by its texts.
pub struct UserUpdateView {
    pub username: Seq<char>,
    pub old_info: Seq<char>,
    pub chat_context: Seq<char>,
}

impl View for UserUpdateRequest {
    type V = UserUpdateView;

    open spec fn view(&self) -> UserUpdateView {
        UserUpdateView {
            username: self.username@,
            old_info: self.old_info@,
            chat_context: self.chat_context@,
        }
    }
}

/// Gives an order for each of some users, all with the same account of the chat.
pub fn user_updates(users: &Vec<UserInfo>, chat_context: &str) -> (updates: Vec<UserUpdateRequest>)
    ensures
        updates@.len() == users@.len(),
        forall|i: int|
            0 <= i < users@.len() ==> (#[trigger] updates@[i])@ == (UserUpdateView {
                username: users@[i].username@,
                old_info: users@[i].info@,
                chat_context: chat_context@,
            }),
{
    let mut updates: Vec<UserUpdateRequest> = Vec::new();
    let mut i: usize = 0;
    while i < users.len()
        invariant
            0 <= i <= users@.len(),
            updates@.len() == i,
            forall|j: int|
                0 <= j < i ==> (#[trigger] updates@[j])@ == (UserUpdateView {
                    username: users@[j].username@,
                    old_info: users@[j].info@,
                    chat_context: chat_context@,
                }),
        decreases users@.len() - i,
    {
        let user = &users[i];
        updates.push(
            UserUpdateRequest {
                username: user.username.clone(),
                old_info: user.info.clone(),
                chat_context: chat_context.to_string(),
            },
        );
        i = i + 1;
    }
    updates
}

/// Where what is remembered of a user is kept.
pub open spec fn user_path_of(username: Seq<char>) -> Seq<char> {
    "users/"@ + username
}

/// What was remembered so far, or that there was nothing.
pub open spec fn known_info(old_info: Seq<char>) -> Seq<char> {
    if is_blank(old_info) {
        "No previous information"@
    } else {
        old_info
    }
}

/// What the model is asked for an update.
pub open spec fn update_prompt_for(request: UserUpdateView) -> Seq<char> {
    let name = request.username;
    "This is the info for "@ + name + ". Only add information about "@ + name
        + " to this file. Update the user information based on the recent chat context. Return only the updated user information in a concise format.\n\nOld user info for "@
        + name + ": "@ + known_info(request.old_info)
        + "\n\nKeep the new user info short. 5 sentences max.\n\nRecent chat context:\n"@
        + request.chat_context + "\n\nThe new user information for "@ + name
        + " should be 5 sentences at max.\n\nPlease provide updated user information for "@ + name
        + " only:"@
}

/// Says where what is remembered of a user is kept.
pub fn user_path(username: &str) -> (path: String)
    ensures
        path@ == user_path_of(username@),
{
    let mut path: String = "users/".to_string();
    path.append(username);
    path
}

/// What is known of a user whose file was read, or could not be.
pub fn user_info(content: Result<String, String>) -> (info: String)
    ensures
        info@ == match content {
            Ok(text) => text@,
            Err(_) => Seq::<char>::empty(),
        },
{
    match content {
        Ok(text) => text,
        Err(_) => String::new(),
    }
}

/// Makes the prompt that asks the model for an update.
pub fn update_prompt(request: &UserUpdateRequest) -> (prompt: String)
    ensures
        prompt@ == update_prompt_for(request@),
{
    let name = request.username.as_str();
    let mut prompt: String = "This is the info for ".to_string();
    prompt.append(name);
    prompt.append(". Only add information about ");
    prompt.append(name);
    prompt.append(
        " to this file. Update the user information based on the recent chat context. Return only the updated user information in a concise format.\n\nOld user info for ",
    );
    prompt.append(name);
    prompt.append(": ");
    if blank(request.old_info.as_str()) {
        prompt.append("No previous information");
    } else {
        prompt.append(request.old_info.as_str());
    }
    prompt.append(
        "\n\nKeep the new user info short. 5 sentences max.\n\nRecent chat context:\n",
    );
    prompt.append(request.chat_context.as_str());
    prompt.append("\n\nThe new user information for ");
    prompt.append(name);
    prompt.append(
        " should be 5 sentences at max.\n\nPlease provide updated user information for ",
    );
    prompt.append(name);
    prompt.append(" only:");
    prompt
}

/// A file to be written.
#[derive(Debug, Clone, PartialEq, Eq)]
pub struct FileWrite {
    pub path: String,
    pub content: String,
}

/// What to write once the model has been asked for an update: its reply to the user's file, or
/// nothing if the model could not be asked.
pub fn finish_user_update(username: &str, reply: &Result<String, String>) -> (write: Option<
    FileWrite,
>)
    ensures
        match *reply {
            Ok(info) => write matches Some(w) && w.path@ == user_path_of(username@) && w.content@
                == trimmed(info@),
            Err(_) => write is None,
        },
{
    match reply {
        Ok(info) => {
            let chars = chars_of(info.as_str());
            Some(
                FileWrite {
                    path: user_path(username),
                    content: text_of(trim(chars.as_slice())),
                },
            )
        },
        Err(_) => None,
    }
}

} // verus!
