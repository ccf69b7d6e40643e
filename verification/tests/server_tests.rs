use cutthroat_engine::config::{resolve_auto_run_migrations_from, resolve_database_url_from};
use cutthroat_engine::lobby::{normal_lobby_name, usernames_from_seats, SeatEntry};

#[test]
fn resolve_database_url_prefers_cutthroat_specific_url() {
    let resolved = resolve_database_url_from(
        Some("postgres://cutthroat".to_string()),
        Some("postgres://fallback".to_string()),
    )
    .expect("database url");
    assert_eq!(resolved, "postgres://cutthroat");
}

#[test]
fn resolve_database_url_uses_fallback_when_primary_missing() {
    let resolved = resolve_database_url_from(None, Some("postgres://fallback".to_string()))
        .expect("database url");
    assert_eq!(resolved, "postgres://fallback");
}

#[test]
fn resolve_database_url_requires_any_url() {
    let err = resolve_database_url_from(None, None).expect_err("expected failure");
    assert!(
        err.message().contains("CUTTHROAT_DATABASE_URL"),
        "error should explain required env vars"
    );
}

#[test]
fn auto_run_migrations_defaults_to_false() {
    assert!(!resolve_auto_run_migrations_from(None));
}

#[test]
fn auto_run_migrations_enabled_only_for_true() {
    assert!(resolve_auto_run_migrations_from(Some("true".to_string())));
    assert!(resolve_auto_run_migrations_from(Some(" TRUE ".to_string())));
    assert!(!resolve_auto_run_migrations_from(Some("1".to_string())));
    assert!(!resolve_auto_run_migrations_from(Some("false".to_string())));
}

#[test]
fn usernames_from_seats_maps_by_seat_index() {
    let seats = vec![
        SeatEntry {
            seat: 2,
            user_id: 12,
            username: "carol".to_string(),
            ready: true,
        },
        SeatEntry {
            seat: 0,
            user_id: 10,
            username: "alice".to_string(),
            ready: true,
        },
        SeatEntry {
            seat: 1,
            user_id: 11,
            username: "bob".to_string(),
            ready: true,
        },
    ];
    let names = usernames_from_seats(&seats).expect("expected full seat map");
    assert_eq!(
        names,
        ["alice".to_string(), "bob".to_string(), "carol".to_string()]
    );
}

#[test]
fn usernames_need_every_seat() {
    let seats = vec![SeatEntry {
        seat: 1,
        user_id: 11,
        username: "bob".to_string(),
        ready: false,
    }];
    assert!(usernames_from_seats(&seats).is_none());
}

#[test]
fn lobby_name_shows_open_seats() {
    let seats = vec![
        SeatEntry {
            seat: 1,
            user_id: 11,
            username: "bob".to_string(),
            ready: false,
        },
        SeatEntry {
            seat: 7,
            user_id: 13,
            username: "dave".to_string(),
            ready: false,
        },
    ];
    assert_eq!(normal_lobby_name(&seats), "Open VS bob VS Open");
    assert_eq!(normal_lobby_name(&[]), "Open VS Open VS Open");
}

#[test]
fn auto_run_migrations_trims_any_whitespace_and_nothing_else() {
    assert!(resolve_auto_run_migrations_from(Some("\t\n True\r\n".to_string())));
    assert!(resolve_auto_run_migrations_from(Some("tRuE".to_string())));
    assert!(!resolve_auto_run_migrations_from(Some("t rue".to_string())));
    assert!(!resolve_auto_run_migrations_from(Some("truee".to_string())));
    assert!(!resolve_auto_run_migrations_from(Some("".to_string())));
    assert!(!resolve_auto_run_migrations_from(Some("   ".to_string())));
    assert!(!resolve_auto_run_migrations_from(Some("yes".to_string())));
    assert!(!resolve_auto_run_migrations_from(Some("4rue".to_string())));
}
