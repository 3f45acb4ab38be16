use mc_launch::errors::{io_message, json_message, LaunchError};

#[test]
fn messages_say_what_went_wrong() {
    assert_eq!(
        LaunchError::MetaNotFound("/meta/x.json".to_owned()).message(),
        "Version metadata not found: /meta/x.json. Re-create the instance to fix this."
    );
    assert_eq!(
        LaunchError::NotSupported("Rift".to_owned()).message(),
        "Rift launch is not yet supported"
    );
    assert_eq!(LaunchError::Auth("No account selected".to_owned()).message(), "No account selected");
}

#[test]
fn errors_of_others_are_quoted() {
    let io = std::io::Error::new(std::io::ErrorKind::Other, "disk on fire");
    assert_eq!(LaunchError::from(io).message(), "IO error: disk on fire");
    let json = serde_json::from_slice::<u32>(b"x").unwrap_err();
    let words = json.to_string();
    assert_eq!(LaunchError::from(json).message(), format!("JSON error: {words}"));
}

#[test]
fn quoted_words_follow_their_prefix() {
    assert_eq!(io_message("gone"), "IO error: gone");
    assert_eq!(json_message("bad"), "JSON error: bad");
}
