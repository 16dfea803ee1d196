use gd_account::user::SocialMediaHandles;

#[test]
fn test_social_media_handles() {
    let mut handles = SocialMediaHandles::new("```", "-_,' ", "~xd");
    assert_eq!(handles.youtube(), None);
    assert_eq!(handles.twitter(), Some("-_,' ".to_string()));
    assert_eq!(handles.twitch(), Some("xd".to_string()));

    handles.set_youtube("xd").set_twitter("").set_twitch("-_,' ");
    assert_eq!(handles.youtube(), Some("xd".to_string()));
    assert_eq!(handles.twitter(), None);
    assert_eq!(handles.twitch(), Some("-_,' ".to_string()));
}

#[test]
fn handles_have_no_length_bound() {
    let long = "x y".repeat(100);
    let handles = SocialMediaHandles::new(&long, "a", "");
    assert_eq!(handles.youtube(), Some(long));
    assert_eq!(handles.twitter(), Some("a".to_string()));
    assert_eq!(handles.twitch(), None);
}

#[test]
fn handles_drop_refused_characters() {
    let handles = SocialMediaHandles::new("@gd.player!", "it's, me_-", "é");
    assert_eq!(handles.youtube(), Some("gdplayer".to_string()));
    assert_eq!(handles.twitter(), Some("it's, me_-".to_string()));
    assert_eq!(handles.twitch(), None);
}

#[test]
fn a_setter_leaves_the_other_handles() {
    let mut handles = SocialMediaHandles::new("one", "two", "three");
    handles.set_twitter("2!");
    assert_eq!(handles.youtube(), Some("one".to_string()));
    assert_eq!(handles.twitter(), Some("2".to_string()));
    assert_eq!(handles.twitch(), Some("three".to_string()));
    handles.set_twitch("#");
    assert_eq!(handles.youtube(), Some("one".to_string()));
    assert_eq!(handles.twitter(), Some("2".to_string()));
    assert_eq!(handles.twitch(), None);
    handles.set_youtube("1");
    assert_eq!(handles.youtube(), Some("1".to_string()));
    assert_eq!(handles.twitter(), Some("2".to_string()));
}
