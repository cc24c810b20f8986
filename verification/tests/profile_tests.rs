use bkt::profile::{load_from_text, parse, render, ConfigError, Profile};

fn sample() -> Profile {
    Profile {
        access_key: String::from("AK"),
        secret_key: String::from("SK"),
        bucket: String::from("mybucket"),
        endpoint: String::from("-"),
        region: String::from("us-east-1"),
    }
}

#[test]
fn render_exact_format() {
    let text = render(&sample());
    assert_eq!(
        text,
        "access_key = \"AK\"\nsecret_key = \"SK\"\nbucket = \"mybucket\"\nendpoint = \"-\"\nregion = \"us-east-1\""
    );
}

#[test]
fn save_load_round_trip() {
    let p = sample();
    let text = render(&p);
    let q = parse(text.as_str()).expect("rendered profile must parse");
    assert_eq!(q.access_key, p.access_key);
    assert_eq!(q.secret_key, p.secret_key);
    assert_eq!(q.bucket, p.bucket);
    assert_eq!(q.endpoint, p.endpoint);
    assert_eq!(q.region, p.region);
}

#[test]
fn round_trip_empty_fields() {
    let p = Profile {
        access_key: String::new(),
        secret_key: String::new(),
        bucket: String::new(),
        endpoint: String::new(),
        region: String::new(),
    };
    let q = parse(render(&p).as_str()).expect("rendered profile must parse");
    assert_eq!(q.access_key, "");
    assert_eq!(q.secret_key, "");
    assert_eq!(q.bucket, "");
    assert_eq!(q.endpoint, "");
    assert_eq!(q.region, "");
}

#[test]
fn round_trip_awkward_characters() {
    let p = Profile {
        access_key: String::from("a b\nc"),
        secret_key: String::from("s = t"),
        bucket: String::from("büçkét"),
        endpoint: String::from("https://min.io:9000/path"),
        region: String::from("-"),
    };
    let q = parse(render(&p).as_str()).expect("rendered profile must parse");
    assert_eq!(q.access_key, p.access_key);
    assert_eq!(q.secret_key, p.secret_key);
    assert_eq!(q.bucket, p.bucket);
    assert_eq!(q.endpoint, p.endpoint);
    assert_eq!(q.region, p.region);
}

#[test]
fn parse_rejects_arbitrary_text() {
    assert!(parse("not a profile at all").is_none());
    assert!(parse("").is_none());
}

#[test]
fn parse_rejects_truncated_text() {
    let text = render(&sample());
    let cut = &text[..text.len() - 1];
    assert!(parse(cut).is_none());
}

#[test]
fn parse_rejects_trailing_garbage() {
    let mut text = render(&sample());
    text.push_str("\nextra = \"x\"");
    assert!(parse(text.as_str()).is_none());
}

#[test]
fn parse_rejects_misnamed_key() {
    let text = render(&sample()).replace("secret_key", "secret_kex");
    assert!(parse(text.as_str()).is_none());
}

#[test]
fn load_from_text_classifies_missing_and_corrupt() {
    assert!(matches!(load_from_text(None), Err(ConfigError::Missing)));
    assert!(matches!(
        load_from_text(Some("gibberish")),
        Err(ConfigError::Corrupt)
    ));
    let text = render(&sample());
    let p = load_from_text(Some(text.as_str())).ok().expect("rendered text must load");
    assert_eq!(p.bucket, "mybucket");
}

#[test]
fn missing_config_message_guides_to_set_command() {
    let msg = ConfigError::Missing.message();
    assert!(msg.contains("bkt set --config"));
    let corrupt = ConfigError::Corrupt.message();
    assert!(corrupt.contains("corrupt"));
}
