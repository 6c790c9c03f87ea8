use brok::model::UserInfo;
use brok::update::{
    finish_user_update, update_prompt, user_info, user_path, user_updates, FileWrite,
    UserUpdateRequest,
};

#[test]
fn each_user_has_a_file() {
    assert_eq!(user_path("ann"), "users/ann");
}

#[test]
fn an_unread_file_tells_nothing() {
    assert_eq!(user_info(Ok("likes tea".to_string())), "likes tea");
    assert_eq!(user_info(Err("missing".to_string())), "");
}

#[test]
fn each_user_gets_an_order() {
    let users = vec![
        UserInfo { username: "ann".to_string(), info: "likes tea".to_string() },
        UserInfo { username: "bob".to_string(), info: String::new() },
    ];
    assert_eq!(
        user_updates(&users, "a: hi"),
        vec![
            UserUpdateRequest {
                username: "ann".to_string(),
                old_info: "likes tea".to_string(),
                chat_context: "a: hi".to_string(),
            },
            UserUpdateRequest {
                username: "bob".to_string(),
                old_info: String::new(),
                chat_context: "a: hi".to_string(),
            },
        ]
    );
    assert!(user_updates(&vec![], "a: hi").is_empty());
}

#[test]
fn the_update_prompt_tells_what_is_known() {
    let request = UserUpdateRequest {
        username: "ann".to_string(),
        old_info: "likes tea".to_string(),
        chat_context: "ann: hi\nbrok: hello".to_string(),
    };
    assert_eq!(
        update_prompt(&request),
        "This is the info for ann. Only add information about ann to this file. Update the user information based on the recent chat context. Return only the updated user information in a concise format.\n\nOld user info for ann: likes tea\n\nKeep the new user info short. 5 sentences max.\n\nRecent chat context:\nann: hi\nbrok: hello\n\nThe new user information for ann should be 5 sentences at max.\n\nPlease provide updated user information for ann only:"
    );
}

#[test]
fn the_update_prompt_tells_that_nothing_is_known() {
    let request = UserUpdateRequest {
        username: "bob".to_string(),
        old_info: " \n".to_string(),
        chat_context: String::new(),
    };
    assert!(update_prompt(&request).contains("Old user info for bob: No previous information\n"));
}

#[test]
fn an_update_is_written_trimmed() {
    assert_eq!(
        finish_user_update("ann", &Ok(" likes coffee \n".to_string())),
        Some(FileWrite { path: "users/ann".to_string(), content: "likes coffee".to_string() })
    );
    assert_eq!(finish_user_update("ann", &Err("down".to_string())), None);
}
