//! Resolution of a profile into a concrete storage target: an optional
//! per-invocation bucket override, then the endpoint/region classification,
//! then the credentials.
//!
//! A well-formed profile sets exactly one of `endpoint` and `region` (the
//! other holds the sentinel `"-"`): the set endpoint becomes a custom
//! endpoint target, the set region a named-region target, and any other
//! profile is rejected as ambiguous. A named region must be a known region
//! identifier, and both credential strings must be non-empty.

use vstd::prelude::*;
use vstd::string::StringExecFns;

use crate::profile::Profile;
use crate::profile::ProfileView;
use crate::profile::sentinel;

verus! {

/// Tagged choice between a named cloud region and a custom endpoint URL.
pub enum RegionSpec {
    NamedRegion(String),
    CustomEndpoint(String),
}

/// The credential pair handed to the storage client.
pub struct Credentials {
    pub access_key: String,
    pub secret_key: String,
}

/// In-memory resolved target: bucket, region or endpoint, credentials.
pub struct ResolvedTarget {
    pub bucket: String,
    pub region_or_endpoint: RegionSpec,
    pub credentials: Credentials,
}

/// Why a profile could not be resolved.
pub enum ResolveError {
    AmbiguousRegionConfig,
    InvalidRegion,
    InvalidCredentials,
}

/// Whether `s` is a known named-region identifier of the storage client.
pub uninterp spec fn region_known(s: Seq<char>) -> bool;

/// Relies on `s3::Region::from_str` (the `aws-region` crate): parsing is a
/// total function of the string alone, returning a listed named-region
/// variant for a known identifier and falling back to `Region::Custom` for
/// any other string.
#[verifier::external_body]
fn region_is_known(s: &str) -> (r: bool)
    ensures
        r == region_known(s@),
{
    match s.parse::<s3::Region>() {
        Ok(s3::Region::Custom { .. }) => false,
        Ok(_) => true,
        Err(_) => false,
    }
}

/// The profile chose a custom endpoint: `endpoint` set, `region` unset.
pub open spec fn endpoint_selected(p: ProfileView) -> bool {
    p.endpoint != sentinel() && p.region == sentinel()
}

/// The profile chose a named region: `endpoint` unset, `region` set.
pub open spec fn region_selected(p: ProfileView) -> bool {
    p.endpoint == sentinel() && p.region != sentinel()
}

/// Both credential strings are non-empty.
pub open spec fn credentials_present(p: ProfileView) -> bool {
    p.access_key.len() > 0 && p.secret_key.len() > 0
}

/// The bucket the target uses: the override when given, else the profile's.
pub open spec fn chosen_bucket(p: ProfileView, bucket_override: Option<Seq<char>>) -> Seq<char> {
    match bucket_override {
        Some(b) => b,
        None => p.bucket,
    }
}

/// A profile is well-formed exactly when it selects an endpoint or a named
/// region; resolution rejects precisely the other profiles as ambiguous.
pub proof fn lemma_valid_config_selects_one(p: ProfileView)
    ensures
        crate::profile::is_valid_config(p) <==> (endpoint_selected(p) || region_selected(p)),
{
}

/// Turns a profile and an optional bucket override into a resolved target.
///
/// Exactly one of `endpoint`/`region` must be set, a set region must be a
/// known identifier, and the credentials must be non-empty; each failure
/// reports its own error, classification before credentials.
pub fn resolve(profile: &Profile, bucket_override: Option<String>) -> (r: Result<
    ResolvedTarget,
    ResolveError,
>)
    ensures
        r is Err <==> !(endpoint_selected(profile@) || (region_selected(profile@) && region_known(
            profile@.region,
        ))) || !credentials_present(profile@),
        r == Err::<ResolvedTarget, ResolveError>(ResolveError::AmbiguousRegionConfig) <==> !(
        endpoint_selected(profile@) || region_selected(profile@)),
        r == Err::<ResolvedTarget, ResolveError>(ResolveError::InvalidRegion) <==> region_selected(
            profile@,
        ) && !region_known(profile@.region),
        r == Err::<ResolvedTarget, ResolveError>(ResolveError::InvalidCredentials) <==> (
        endpoint_selected(profile@) || (region_selected(profile@) && region_known(
            profile@.region,
        ))) && !credentials_present(profile@),
        r matches Ok(t) ==> {
            &&& t.bucket@ == chosen_bucket(
                profile@,
                match bucket_override {
                    Some(b) => Some(b@),
                    None => None,
                },
            )
            &&& t.credentials.access_key@ == profile@.access_key
            &&& t.credentials.secret_key@ == profile@.secret_key
            &&& endpoint_selected(profile@) ==> (t.region_or_endpoint matches RegionSpec::CustomEndpoint(e)
                && e@ == profile@.endpoint)
            &&& region_selected(profile@) ==> (t.region_or_endpoint matches RegionSpec::NamedRegion(g)
                && g@ == profile@.region)
        },
{
    let dash = String::from_str("-");
    let endpoint_set = profile.endpoint != dash;
    let region_set = profile.region != dash;

    let region_or_endpoint: RegionSpec = if endpoint_set && !region_set {
        RegionSpec::CustomEndpoint(profile.endpoint.clone())
    } else if !endpoint_set && region_set {
        if !region_is_known(profile.region.as_str()) {
            return Err(ResolveError::InvalidRegion);
        }
        RegionSpec::NamedRegion(profile.region.clone())
    } else {
        return Err(ResolveError::AmbiguousRegionConfig);
    };

    if profile.access_key.as_str().is_empty() || profile.secret_key.as_str().is_empty() {
        return Err(ResolveError::InvalidCredentials);
    }

    let bucket = match bucket_override {
        Some(b) => b,
        None => profile.bucket.clone(),
    };
    Ok(ResolvedTarget {
        bucket,
        region_or_endpoint,
        credentials: Credentials {
            access_key: profile.access_key.clone(),
            secret_key: profile.secret_key.clone(),
        },
    })
}

} // verus!
