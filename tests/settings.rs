use waw::settings::{Auth, Session, Settings, SyncOpts};

fn session(start: i64, expires_in: u32) -> Session {
    Session {
        start_time: start,
        client_id: "id".to_string(),
        client_secret: "secret".to_string(),
        realm_id: 1403,
        auth: Auth {
            access_token: "tok".to_string(),
            token_type: "bearer".to_string(),
            expires_in,
            scope: None,
        },
    }
}

#[test]
fn session_expiry() {
    let s = session(1000, 60);
    assert!(!s.has_expired(1000));
    assert!(!s.has_expired(1060));
    assert!(s.has_expired(1061));
}

#[test]
fn auction_url_names_realm_and_token() {
    assert_eq!(
        session(0, 1).auction_url(),
        "https://eu.api.blizzard.com/data/wow/connected-realm/1403/auctions?namespace=dynamic-eu&locale=en_US&access_token=tok"
    );
}

#[test]
fn settings_delay() {
    let s = Settings::new(
        "id".to_string(),
        "secret".to_string(),
        1403,
        "/data".to_string(),
        5,
        false,
        "localhost".to_string(),
    );
    assert_eq!(s.delay_secs(), 300);
    let mut big = s.clone();
    big.delay_mins = u64::MAX;
    assert_eq!(big.delay_secs(), u64::MAX);
    assert!(SyncOpts { no_load: false }.should_load(3));
    assert!(!SyncOpts { no_load: true }.should_load(3));
    assert!(!SyncOpts { no_load: false }.should_load(0));
}

#[test]
fn valid_path_keeps_readable_entries() {
    let p = std::path::PathBuf::from("data/2020-01-01T00:00:00+00:00.xz");
    assert_eq!(waw::paths::valid_path(Ok(p.clone())), Some(p));
}

#[test]
fn watchlist_command_lists_ids() {
    let d = waw::settings::InitRefData { watchlist: vec![109119, 109076, 111557] };
    assert_eq!(d.command(), vec!["SADD", "watchlist", "109119", "109076", "111557"]);
    let empty = waw::settings::InitRefData { watchlist: vec![] };
    assert_eq!(empty.command(), vec!["SADD", "watchlist"]);
}
