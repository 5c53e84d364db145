use mission_crew::config::config_loader::{
    get_cloudinary_env, get_jwt_env, get_stage, load, server_from, ConfigError,
};
use mission_crew::config::stage::{InvalidStage, Stage};
use mission_crew::decimal::{i32_to_text, parse_i32, parse_i64, parse_u16, parse_u32, parse_u64};
use mission_crew::infrastructure::http::middleware::auth::strip_bearer;
use mission_crew::infrastructure::jwt::jwt_model::{Claims, Passport, SECONDS_PER_DAY};

#[test]
fn stage_is_read_from_its_exact_name() {
    assert_eq!(Stage::from_str("local"), Ok(Stage::Local));
    assert_eq!(Stage::from_str("development"), Ok(Stage::Development));
    assert_eq!(Stage::from_str("production"), Ok(Stage::Production));
    for text in ["", "Local", "LOCAL", " local", "local ", "prod", "staging"] {
        assert_eq!(Stage::from_str(text), Err(InvalidStage));
    }
    assert_eq!(InvalidStage.message(), "Invalid stage");
}

#[test]
fn stage_names_round_trip() {
    for stage in [Stage::Local, Stage::Development, Stage::Production] {
        assert_eq!(Stage::from_str(&stage.to_string()), Ok(stage));
    }
    assert_eq!(Stage::Local.to_string(), "local");
    assert_eq!(Stage::Development.to_string(), "development");
    assert_eq!(Stage::Production.to_string(), "production");
}

#[test]
fn stage_defaults_to_development() {
    assert_eq!(Stage::default(), Stage::Development);
    assert_eq!(get_stage(""), Stage::Development);
    assert_eq!(get_stage("nonsense"), Stage::Development);
    assert_eq!(get_stage("local"), Stage::Local);
    assert_eq!(get_stage("production"), Stage::Production);
}

#[test]
fn load_reads_the_numbers_and_keeps_the_texts() {
    let config = load("8080", "10", "30", "postgres://db".to_string(), "s3".to_string(), None).unwrap();
    assert_eq!(config.server.port, 8080);
    assert_eq!(config.server.body_limit, 10);
    assert_eq!(config.server.timeout, 30);
    assert_eq!(config.database.url, "postgres://db");
    assert_eq!(config.secret, "s3");
    assert_eq!(config.max_crew_per_mission, 10);
    let config = load("65535", "0", "18446744073709551615", String::new(), String::new(), Some("3")).unwrap();
    assert_eq!(config.server.port, 65535);
    assert_eq!(config.server.body_limit, 0);
    assert_eq!(config.server.timeout, u64::MAX);
    assert_eq!(config.max_crew_per_mission, 3);
}

#[test]
fn load_names_the_first_setting_that_is_no_number() {
    let run = |port: &str, body: &str, timeout: &str, crew: Option<&str>| {
        load(port, body, timeout, String::new(), String::new(), crew).err()
    };
    assert_eq!(run("65536", "x", "y", Some("z")), Some(ConfigError::InvalidPort));
    assert_eq!(run("", "1", "1", None), Some(ConfigError::InvalidPort));
    assert_eq!(run("-1", "1", "1", None), Some(ConfigError::InvalidPort));
    assert_eq!(run("80", "1.5", "y", Some("z")), Some(ConfigError::InvalidBodyLimit));
    assert_eq!(run("80", "1", "18446744073709551616", Some("z")), Some(ConfigError::InvalidTimeout));
    assert_eq!(run("80", "1", "1", Some("ten")), Some(ConfigError::InvalidCrewLimit));
    assert_eq!(run("80", "1", "1", Some("4294967296")), Some(ConfigError::InvalidCrewLimit));
    assert_eq!(run("80", "1", "1", Some("")), Some(ConfigError::InvalidCrewLimit));
    assert_eq!(server_from("80", "1", "").err(), Some(ConfigError::InvalidTimeout));
    assert_eq!(server_from("80", "1", "2").unwrap().timeout, 2);
}

#[test]
fn jwt_and_cloudinary_settings() {
    let env = get_jwt_env("secret".to_string(), "30").unwrap();
    assert_eq!(env.secret, "secret");
    assert_eq!(env.lift_time_days, 30);
    assert_eq!(get_jwt_env(String::new(), "-2").unwrap().lift_time_days, -2);
    assert_eq!(get_jwt_env(String::new(), "thirty").err(), Some(ConfigError::InvalidLifetime));
    assert_eq!(get_jwt_env(String::new(), "9223372036854775808").err(), Some(ConfigError::InvalidLifetime));
    let env = get_cloudinary_env("cloud".to_string(), "key".to_string(), "secret".to_string());
    assert_eq!((env.cloud_name.as_str(), env.api_key.as_str(), env.api_secret.as_str()), ("cloud", "key", "secret"));
}

#[test]
fn numbers_are_read_as_the_standard_library_reads_them() {
    let texts = [
        "0", "7", "42", "+42", "-42", "007", "-0", "+0", "", "+", "-", "--1", "+-1", "1 ", " 1", "1_000",
        "1e3", "0x10", "१२", "2147483647", "2147483648", "-2147483648", "-2147483649", "65535", "65536",
        "4294967295", "4294967296", "18446744073709551615", "18446744073709551616",
        "9223372036854775807", "9223372036854775808", "-9223372036854775808", "-9223372036854775809",
        "000000000000000000000000000000000000000012", "99999999999999999999999999999999999999999999",
        "12a", "a12", "1-2", "٣",
    ];
    for text in texts {
        assert_eq!(parse_u16(text), text.parse::<u16>().ok(), "u16 {:?}", text);
        assert_eq!(parse_u32(text), text.parse::<u32>().ok(), "u32 {:?}", text);
        assert_eq!(parse_u64(text), text.parse::<u64>().ok(), "u64 {:?}", text);
        assert_eq!(parse_i32(text), text.parse::<i32>().ok(), "i32 {:?}", text);
        assert_eq!(parse_i64(text), text.parse::<i64>().ok(), "i64 {:?}", text);
    }
    assert_eq!(parse_u16("42"), Some(42));
    assert_eq!(parse_i32("-42"), Some(-42));
    assert_eq!(parse_u64("-0"), None);
    assert_eq!(parse_i64("-0"), Some(0));
}

#[test]
fn numbers_are_written_as_the_standard_library_writes_them() {
    for n in [0, 1, 9, 10, 11, 99, 100, 101, 12345, -1, -9, -10, -12345, i32::MAX, i32::MIN, i32::MIN + 1] {
        assert_eq!(i32_to_text(n), n.to_string());
        assert_eq!(parse_i32(&i32_to_text(n)), Some(n));
    }
    assert_eq!(i32_to_text(-2147483648), "-2147483648");
    assert_eq!(i32_to_text(2147483647), "2147483647");
}

#[test]
fn claims_carry_subject_issue_time_and_expiry() {
    assert_eq!(SECONDS_PER_DAY, 86_400);
    let claims = Claims::issue(17, 1_700_000_000, 30).unwrap();
    assert_eq!(claims.sub, "17");
    assert_eq!(claims.iat, 1_700_000_000);
    assert_eq!(claims.exp, 1_700_000_000 + 30 * 86_400);
    assert_eq!(claims.brawler_id(), Some(17));
    let claims = Claims::issue(-3, 0, 0).unwrap();
    assert_eq!((claims.sub.as_str(), claims.iat, claims.exp), ("-3", 0, 0));
    let claims = Claims::issue(1, 86_400, -1).unwrap();
    assert_eq!(claims.exp, 0);
}

#[test]
fn claims_are_not_issued_for_times_out_of_range() {
    assert!(Claims::issue(1, -1, 30).is_none());
    assert!(Claims::issue(1, 0, -1).is_none());
    assert!(Claims::issue(1, i64::MAX, i64::MAX).is_none());
    assert_eq!(Claims::issue(1, i64::MAX, 1).unwrap().exp as u64, i64::MAX as u64 + 86_400);
    assert!(Claims::issue(1, 1, i64::MAX).is_none());
    assert!(Claims::issue(1, 1, i64::MIN).is_none());
}

#[test]
fn subject_must_be_the_text_of_an_identifier() {
    let with = |sub: &str| Claims { sub: sub.to_string(), exp: 0, iat: 0 };
    assert_eq!(with("12").brawler_id(), Some(12));
    assert_eq!(with("-12").brawler_id(), Some(-12));
    assert_eq!(with("").brawler_id(), None);
    assert_eq!(with("twelve").brawler_id(), None);
    assert_eq!(with("2147483648").brawler_id(), None);
}

#[test]
fn passport_is_a_bearer_token() {
    let passport = Passport::new("abc.def.ghi".to_string(), 99);
    assert_eq!(passport.access_token, "abc.def.ghi");
    assert_eq!(passport.token_type, "Bearer");
    assert_eq!(passport.expires_in, 99);
}

#[test]
fn bearer_token_is_what_follows_the_scheme() {
    assert_eq!(strip_bearer("Bearer abc"), Some("abc"));
    assert_eq!(strip_bearer("Bearer "), Some(""));
    assert_eq!(strip_bearer("Bearer  two"), Some(" two"));
    assert_eq!(strip_bearer("Bearer é✓"), Some("é✓"));
    assert_eq!(strip_bearer("bearer abc"), None);
    assert_eq!(strip_bearer("Bearer"), None);
    assert_eq!(strip_bearer("Basic abc"), None);
    assert_eq!(strip_bearer(" Bearer abc"), None);
    assert_eq!(strip_bearer(""), None);
    assert_eq!(strip_bearer("ééééééé"), None);
}
