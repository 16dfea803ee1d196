use gd_account::user::{Ban, Email, IconSet, Name, SocialMediaHandles, Stats, User};
use std::time::Instant;

#[test]
fn icon_set_defaults_to_zero() {
    let icons = IconSet::default();
    assert_eq!(icons.icon_id, 0);
    assert_eq!(icons.ship_id, 0);
    assert_eq!(icons.jetpack_id, 0);
    assert_eq!(icons.ball_id, 0);
    assert_eq!(icons.ufo_id, 0);
    assert_eq!(icons.wave_id, 0);
    assert_eq!(icons.robot_id, 0);
    assert_eq!(icons.spider_id, 0);
    assert_eq!(icons.swing_id, 0);
    assert_eq!(icons.glow_id, 0);
    assert_eq!(icons.death_effect_id, 0);
}

#[test]
fn stats_default_to_zero() {
    let stats = Stats::default();
    assert_eq!(stats.stars, 0);
    assert_eq!(stats.moons, 0);
    assert_eq!(stats.coins, 0);
    assert_eq!(stats.user_coins, 0);
    assert_eq!(stats.diamonds, 0);
    assert_eq!(stats.demons, 0);
    assert_eq!(stats.creator_points, 0);
    assert_eq!(stats.orbs, 0);
}

#[test]
fn ban_is_stored_under_a_stable_number() {
    assert_eq!(Ban::default().discriminant(), 0);
    assert_eq!(Ban::NotBanned.discriminant(), 0);
    assert_eq!(Ban::LeaderboardBan.discriminant(), 1);
    assert_eq!(Ban::CreatorBan.discriminant(), 2);
    assert_eq!(Ban::LeaderboardAndCreatorBan.discriminant(), 3);
    for code in 0..=3u8 {
        assert_eq!(Ban::from_discriminant(code).unwrap().discriminant(), code);
    }
    assert!(Ban::from_discriminant(4).is_none());
    assert!(Ban::from_discriminant(255).is_none());
}

#[test]
fn user_holds_what_it_was_given() {
    let now = Instant::now();
    let user = User::new(
        7,
        Name::parse("babygronk").unwrap(),
        Email::parse("baby@gronk.gg").unwrap(),
        SocialMediaHandles::new("yt", "", "tt"),
        now,
    );
    assert_eq!(user.id, 7);
    assert_eq!(user.name.as_str(), "babygronk");
    assert_eq!(user.email.as_str(), "baby@gronk.gg");
    assert_eq!(user.social_media_handles.youtube(), Some("yt".to_string()));
    assert_eq!(user.social_media_handles.twitter(), None);
    assert_eq!(user.social_media_handles.twitch(), Some("tt".to_string()));
    assert_eq!(user.created_at, now);
}
