use rideviz_rs::config::Config;
use rideviz_rs::state::{entry_kept, AppState, CachedActivity, CachedLicense, Entry, StravaSession};
use rideviz_rs::types::activity::{AvailableData, Metrics, ProcessedActivity, TrackPoint};

fn activity(points: usize) -> ProcessedActivity {
    ProcessedActivity {
        points: vec![
            TrackPoint {
                lat: 1,
                lon: 2,
                elevation: None,
                time: None,
                heart_rate: None,
                power: None,
                cadence: None,
                temperature: None,
            };
            points
        ],
        metrics: Metrics {
            distance_mm: points as u64,
            elevation_gain_mm: 0,
            duration_seconds: 0,
            avg_speed_m_per_h: 0,
            avg_heart_rate: None,
            max_heart_rate: None,
            avg_power: None,
            max_power: None,
        },
        available_data: AvailableData {
            has_coordinates: true,
            has_elevation: false,
            has_heart_rate: false,
            has_power: false,
        },
    }
}

#[test]
fn cached_activities_are_found_until_they_expire() {
    let mut state = AppState::new(Config::default());
    assert!(state.get("a").is_none());
    state.insert("a".to_string(), activity(2), 1_000);
    state.insert("b".to_string(), activity(3), 2_000);
    assert_eq!(state.get("a").map(|a| a.points.len()), Some(2));
    assert_eq!(state.get("b").map(|a| a.metrics.distance_mm), Some(3));
    assert!(state.get("A").is_none());
    // The last write wins.
    state.insert("a".to_string(), activity(5), 1_500);
    assert_eq!(state.get("a").map(|a| a.points.len()), Some(5));
    // An entry is kept while less than the time to live has passed.
    state.evict_expired(1_000, 2_499);
    assert!(state.get("a").is_some() && state.get("b").is_some());
    state.evict_expired(1_000, 2_500);
    assert!(state.get("a").is_none());
    assert!(state.get("b").is_some());
    state.evict_expired(1_000, 3_000);
    assert!(state.get("b").is_none());
}

#[test]
fn a_sweep_keeps_what_has_not_expired() {
    let cached = |inserted_at: u64| {
        Entry::Activity(CachedActivity { activity: activity(2), inserted_at })
    };
    assert!(entry_kept(&cached(100), 100, 1));
    assert!(entry_kept(&cached(100), 199, 100));
    assert!(!entry_kept(&cached(100), 200, 100));
    assert!(!entry_kept(&cached(100), 100, 0));
    // A clock that runs backwards counts as no time passed.
    assert!(entry_kept(&cached(100), 50, 1));
    let license = Entry::License(CachedLicense {
        token: "t".to_string(),
        email: "a@b.com".to_string(),
        is_pro: true,
        expires_at: 1_000,
    });
    assert!(entry_kept(&license, 999, 0));
    assert!(!entry_kept(&license, 1_000, u64::MAX));
    assert!(entry_kept(&Entry::History(vec![1, 2, 3].into()), u64::MAX, 0));
}

#[test]
fn the_state_is_set_up_from_the_settings() {
    let mut config = Config::default();
    config.video_export_max_concurrency = 1;
    config.video_export_rate_limit_max_requests = 1;
    config.video_export_rate_limit_window = 5;
    let mut state = AppState::new(config);
    assert_eq!(state.config().video_export_rate_limit_window, 5);
    assert_eq!(state.config().port, 3000);
    // As many permits as the settings allow exports at once.
    assert!(state.video_export_semaphore().try_acquire());
    assert!(!state.video_export_semaphore().try_acquire());
    // The window of the settings is in seconds.
    assert_eq!(state.video_export_rate_limiter().check("a", 0), Ok(()));
    assert_eq!(state.video_export_rate_limiter().check("a", 4_000), Err(1));
    assert_eq!(state.video_export_rate_limiter().check("a", 5_001), Ok(()));
}

#[test]
fn licenses_are_remembered_until_they_expire() {
    let mut state = AppState::new(Config::default());
    assert!(state.verify_license("t1", 0).is_none());
    state.store_license(CachedLicense {
        token: "t1".to_string(),
        email: "a@b.com".to_string(),
        is_pro: true,
        expires_at: 1_000,
    });
    state.store_license(CachedLicense {
        token: "t2".to_string(),
        email: "c@d.com".to_string(),
        is_pro: false,
        expires_at: 5_000,
    });
    let found = state.verify_license("t1", 999).expect("the license is valid");
    assert_eq!((found.email.as_str(), found.is_pro), ("a@b.com", true));
    assert!(state.verify_license("t1", 1_000).is_none());
    assert!(state.verify_license("t3", 0).is_none());
    state.evict_expired(10, 2_000);
    // The sweep removed the expired license; an earlier clock does not bring it back.
    assert!(state.verify_license("t1", 0).is_none());
    assert_eq!(state.verify_license("t2", 0).map(|l| l.is_pro), Some(false));
}

#[test]
fn sessions_are_kept_until_they_expire() {
    let mut state = AppState::new(Config::default());
    let session = |token: &str, expires_at: u64| StravaSession {
        access_token: token.to_string(),
        athlete_id: Some(42),
        expires_at,
        oauth_client_id: None,
        oauth_client_secret: None,
    };
    state.store_strava_session("s1".to_string(), session("a", 100));
    state.store_strava_session("s2".to_string(), session("b", 200));
    state.store_strava_session("s1".to_string(), session("c", 150));
    assert_eq!(state.get_strava_session("s1", 149).map(|s| s.access_token), Some("c".to_string()));
    assert!(state.get_strava_session("s1", 150).is_none());
    assert!(state.get_strava_session("s3", 0).is_none());
    state.evict_expired(10, 150);
    assert!(state.get_strava_session("s1", 0).is_none());
    assert_eq!(state.get_strava_session("s2", 0).and_then(|s| s.athlete_id), Some(42));
}
