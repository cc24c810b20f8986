use bkt::profile::Profile;
use bkt::resolve::{resolve, RegionSpec, ResolveError};

fn profile(endpoint: &str, region: &str) -> Profile {
    Profile {
        access_key: String::from("AK"),
        secret_key: String::from("SK"),
        bucket: String::from("mybucket"),
        endpoint: String::from(endpoint),
        region: String::from(region),
    }
}

#[test]
fn resolve_custom_endpoint() {
    let r = resolve(&profile("https://min.io:9000", "-"), None);
    let t = r.ok().expect("endpoint-only profile must resolve");
    assert_eq!(t.bucket, "mybucket");
    assert!(matches!(
        t.region_or_endpoint,
        RegionSpec::CustomEndpoint(e) if e == "https://min.io:9000"
    ));
    assert_eq!(t.credentials.access_key, "AK");
    assert_eq!(t.credentials.secret_key, "SK");
}

#[test]
fn resolve_named_region_with_override() {
    let r = resolve(&profile("-", "us-east-1"), Some(String::from("other")));
    let t = r.ok().expect("known-region profile must resolve");
    assert_eq!(t.bucket, "other");
    assert!(matches!(
        t.region_or_endpoint,
        RegionSpec::NamedRegion(g) if g == "us-east-1"
    ));
    assert_eq!(t.credentials.access_key, "AK");
    assert_eq!(t.credentials.secret_key, "SK");
}

#[test]
fn resolve_named_region_without_override() {
    let t = resolve(&profile("-", "eu-west-2"), None).ok().unwrap();
    assert_eq!(t.bucket, "mybucket");
    assert!(matches!(
        t.region_or_endpoint,
        RegionSpec::NamedRegion(g) if g == "eu-west-2"
    ));
}

#[test]
fn resolve_rejects_both_set() {
    let r = resolve(&profile("https://min.io:9000", "us-east-1"), None);
    assert!(matches!(r, Err(ResolveError::AmbiguousRegionConfig)));
}

#[test]
fn resolve_rejects_both_unset() {
    let r = resolve(&profile("-", "-"), None);
    assert!(matches!(r, Err(ResolveError::AmbiguousRegionConfig)));
}

#[test]
fn resolve_rejects_unknown_region() {
    let r = resolve(&profile("-", "middle-earth-1"), None);
    assert!(matches!(r, Err(ResolveError::InvalidRegion)));
}

#[test]
fn resolve_rejects_empty_access_key() {
    let mut p = profile("https://min.io:9000", "-");
    p.access_key = String::new();
    let r = resolve(&p, None);
    assert!(matches!(r, Err(ResolveError::InvalidCredentials)));
}

#[test]
fn resolve_rejects_empty_secret_key() {
    let mut p = profile("-", "us-east-1");
    p.secret_key = String::new();
    let r = resolve(&p, None);
    assert!(matches!(r, Err(ResolveError::InvalidCredentials)));
}

#[test]
fn ambiguity_reported_before_credentials() {
    let mut p = profile("-", "-");
    p.access_key = String::new();
    let r = resolve(&p, None);
    assert!(matches!(r, Err(ResolveError::AmbiguousRegionConfig)));
}
