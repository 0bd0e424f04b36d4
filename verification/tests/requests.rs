use stackpedia::comments::normalize_comment;
use stackpedia::compare::parse_compare_tools;
use stackpedia::config::{Config, ConfigError};
use stackpedia::errors::err;
use stackpedia::seed::{
    check_seed_allowed, plan_seed, seed_recovery_code, seed_start, CommentSeed, SeedStart, SeedStep,
    VoteSeed,
};
use stackpedia::users::{normalize_sponsor_url, require_profile_user};

#[test]
fn comments_are_trimmed_and_bounded() {
    assert_eq!(normalize_comment("  nice stack  ").ok().unwrap(), "nice stack");
    let e = normalize_comment("   ").err().unwrap();
    assert_eq!(e.status, 400);
    assert_eq!(e.body.error, "content must be 1-500 chars");
    assert!(normalize_comment(&"c".repeat(500)).is_ok());
    assert!(normalize_comment(&format!("  {}  ", "c".repeat(500))).is_ok());
    assert!(normalize_comment(&"c".repeat(501)).is_err());
}

#[test]
fn comparison_needs_two_names() {
    let (a, b) = parse_compare_tools(" vercel , netlify").ok().unwrap();
    assert_eq!((a.as_str(), b.as_str()), ("vercel", "netlify"));
    for bad in ["vercel", "a,b,c", "a, ", " ,b", ""] {
        let e = parse_compare_tools(bad).err().unwrap();
        assert_eq!(e.status, 400);
        assert_eq!(e.body.error, "provide exactly 2 comma-separated tool names");
    }
}

#[test]
fn sponsor_url_rules() {
    assert_eq!(normalize_sponsor_url(None).ok().unwrap(), None);
    assert_eq!(normalize_sponsor_url(Some(String::new())).ok().unwrap(), None);
    assert_eq!(
        normalize_sponsor_url(Some("https://ko-fi.com/x".to_string())).ok().unwrap(),
        Some("https://ko-fi.com/x".to_string())
    );
    let e = normalize_sponsor_url(Some("http://x".to_string())).err().unwrap();
    assert_eq!((e.status, e.body.error.as_str()), (400, "sponsor_url must start with https://"));
    let e = normalize_sponsor_url(Some(format!("http://{}", "x".repeat(200)))).err().unwrap();
    assert_eq!((e.status, e.body.error.as_str()), (400, "sponsor_url must be max 200 chars"));
}

#[test]
fn profile_of_unknown_user_is_not_found() {
    assert_eq!(require_profile_user(Some("u")).ok(), Some("u"));
    let e = require_profile_user::<u8>(None).err().unwrap();
    assert_eq!((e.status, e.body.error.as_str()), (404, "user not found"));
}

#[test]
fn error_answers() {
    let e = err(500, "internal error");
    assert_eq!(e.status, 500);
    assert_eq!(e.body.error, "internal error");
}

#[test]
fn config_from_values() {
    let c = Config::from_values(Some("postgres://db".to_string()), Some("0aFF".to_string()), None).ok().unwrap();
    assert_eq!(c.database_url, "postgres://db");
    assert_eq!(c.secret, vec![0x0a, 0xff]);
    assert_eq!(c.port, 3000);
    let c = Config::from_values(Some("u".to_string()), Some("".to_string()), Some("+8080".to_string())).ok().unwrap();
    assert_eq!(c.secret, Vec::<u8>::new());
    assert_eq!(c.port, 8080);
}

#[test]
fn config_errors_in_order() {
    assert_eq!(Config::from_values(None, None, Some("x".to_string())).err(), Some(ConfigError::MissingDatabaseUrl));
    assert_eq!(Config::from_values(Some("u".to_string()), None, None).err(), Some(ConfigError::MissingSecret));
    assert_eq!(Config::from_values(Some("u".to_string()), Some("abc".to_string()), None).err(), Some(ConfigError::SecretNotHex));
    assert_eq!(Config::from_values(Some("u".to_string()), Some("zz".to_string()), None).err(), Some(ConfigError::SecretNotHex));
    for bad in ["65536", "-1", "port", "", "+"] {
        assert_eq!(
            Config::from_values(Some("u".to_string()), Some("00".to_string()), Some(bad.to_string())).err(),
            Some(ConfigError::InvalidPort)
        );
    }
    assert_eq!(ConfigError::MissingDatabaseUrl.message(), "DATABASE_URL must be set");
    assert_eq!(ConfigError::MissingSecret.message(), "STACKPEDIA_SECRET must be set");
    assert_eq!(ConfigError::SecretNotHex.message(), "STACKPEDIA_SECRET must be valid hex");
    assert_eq!(ConfigError::InvalidPort.message(), "PORT must be a number");
}

#[test]
fn seed_codes() {
    assert_eq!(seed_recovery_code("marcelo"), "SEED-marcelo");
}

#[test]
fn seed_plan_skips_out_of_range_entries() {
    let comments = vec![
        CommentSeed { stack: 0, user: 1 },
        CommentSeed { stack: 9, user: 1 },
        CommentSeed { stack: 1, user: 7 },
        CommentSeed { stack: 1, user: 0 },
    ];
    let votes = vec![
        VoteSeed { stack: 1, voters: vec![0, 5, 2] },
        VoteSeed { stack: 4, voters: vec![0] },
        VoteSeed { stack: 0, voters: vec![] },
    ];
    let plan = plan_seed(&comments, &votes, 2, 3);
    assert_eq!(
        plan,
        vec![
            SeedStep::Comment(0),
            SeedStep::Comment(3),
            SeedStep::Vote { stack: 1, voter: 0 },
            SeedStep::Vote { stack: 1, voter: 2 },
            SeedStep::Recount(1),
            SeedStep::Recount(0),
        ]
    );
}

#[test]
fn seeding_is_refused_in_production() {
    assert!(check_seed_allowed(None).is_ok());
    assert!(check_seed_allowed(Some("development".to_string())).is_ok());
    let e = check_seed_allowed(Some("production".to_string())).err().unwrap();
    assert_eq!((e.status, e.body.error.as_str()), (403, "seed is disabled in production"));
}

#[test]
fn seeding_starts_only_on_an_empty_store() {
    assert!(matches!(seed_start(0), SeedStart::Proceed));
    match seed_start(3) {
        SeedStart::AlreadySeeded { message, stacks } => {
            assert_eq!(message, "already seeded");
            assert_eq!(stacks, 3);
        }
        SeedStart::Proceed => panic!("a store with stacks is not seeded again"),
    }
}

#[test]
fn comparison_follows_the_order_of_the_request() {
    let (a, b) = parse_compare_tools("postgres,redis").ok().unwrap();
    assert_eq!((a.as_str(), b.as_str()), ("postgres", "redis"));
    let (a, b) = parse_compare_tools("redis,postgres").ok().unwrap();
    assert_eq!((a.as_str(), b.as_str()), ("redis", "postgres"));
}
