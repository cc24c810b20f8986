//! The persisted configuration profile and its on-disk text format.
//!
//! A profile holds five strings; `endpoint` and `region` use the sentinel
//! `"-"` for "unset", and a well-formed profile sets exactly one of the two.
//! The file format is one `key = "value"` line per field. `render` produces
//! that text and `parse` reads it back; `lemma_render_parse_round_trip`
//! proves that a parse of rendered text recovers the profile whenever no
//! field contains the quote delimiter.

use vstd::prelude::*;
use vstd::string::StrSliceExecFns;
use vstd::string::StringExecFns;

use crate::text::find_char_from;
use crate::text::lemma_find_char_first;
use crate::text::lemma_find_char_props;
use crate::text::matches_at;

verus! {

/// Persisted configuration: credentials, bucket, and endpoint or region.
pub struct Profile {
    pub access_key: String,
    pub secret_key: String,
    pub bucket: String,
    pub endpoint: String,
    pub region: String,
}

/// Mathematical model of a profile: the five fields as character sequences.
pub struct ProfileView {
    pub access_key: Seq<char>,
    pub secret_key: Seq<char>,
    pub bucket: Seq<char>,
    pub endpoint: Seq<char>,
    pub region: Seq<char>,
}

impl View for Profile {
    type V = ProfileView;

    open spec fn view(&self) -> ProfileView {
        ProfileView {
            access_key: self.access_key@,
            secret_key: self.secret_key@,
            bucket: self.bucket@,
            endpoint: self.endpoint@,
            region: self.region@,
        }
    }
}

/// The "unset" sentinel for `endpoint` and `region`.
pub open spec fn sentinel() -> Seq<char> {
    "-"@
}

/// A well-formed profile sets exactly one of `endpoint` and `region`.
pub open spec fn is_valid_config(p: ProfileView) -> bool {
    (p.endpoint == sentinel()) != (p.region == sentinel())
}

pub open spec fn lit_access() -> Seq<char> {
    "access_key = \""@
}

pub open spec fn lit_secret() -> Seq<char> {
    "\"\nsecret_key = \""@
}

pub open spec fn lit_bucket() -> Seq<char> {
    "\"\nbucket = \""@
}

pub open spec fn lit_endpoint() -> Seq<char> {
    "\"\nendpoint = \""@
}

pub open spec fn lit_region() -> Seq<char> {
    "\"\nregion = \""@
}

pub open spec fn lit_close() -> Seq<char> {
    "\""@
}

/// The profile file's text: one `key = "value"` line per field.
pub open spec fn render_spec(p: ProfileView) -> Seq<char> {
    lit_access() + p.access_key + lit_secret() + p.secret_key + lit_bucket() + p.bucket
        + lit_endpoint() + p.endpoint + lit_region() + p.region + lit_close()
}

/// One field of the file: the fixed text `lit` at `pos`, then the value up
/// to the next quote. Returns the value and the index of its closing quote.
pub open spec fn parse_field(s: Seq<char>, pos: int, lit: Seq<char>) -> Option<(Seq<char>, int)> {
    if !matches_at(s, pos, lit) {
        None
    } else {
        match find_char_from(s, '"', pos + lit.len()) {
            Some(end) => Some((s.subrange(pos + lit.len() as int, end), end)),
            None => None,
        }
    }
}

/// The profile recovered from file text `s`, or `None` when `s` is not of
/// the rendered shape.
pub open spec fn parse_spec(s: Seq<char>) -> Option<ProfileView> {
    match parse_field(s, 0, lit_access()) {
        None => None,
        Some((access_key, p1)) => match parse_field(s, p1, lit_secret()) {
            None => None,
            Some((secret_key, p2)) => match parse_field(s, p2, lit_bucket()) {
                None => None,
                Some((bucket, p3)) => match parse_field(s, p3, lit_endpoint()) {
                    None => None,
                    Some((endpoint, p4)) => match parse_field(s, p4, lit_region()) {
                        None => None,
                        Some((region, p5)) => if p5 + 1 == s.len() {
                            Some(ProfileView { access_key, secret_key, bucket, endpoint, region })
                        } else {
                            None
                        },
                    },
                },
            },
        },
    }
}

/// `v` holds no quote character, the delimiter of the file format.
pub open spec fn quote_free(v: Seq<char>) -> bool {
    forall|i: int| 0 <= i < v.len() ==> v[i] != '"'
}

/// No field of `p` holds the quote delimiter.
pub open spec fn profile_quote_free(p: ProfileView) -> bool {
    &&& quote_free(p.access_key)
    &&& quote_free(p.secret_key)
    &&& quote_free(p.bucket)
    &&& quote_free(p.endpoint)
    &&& quote_free(p.region)
}

/// Serializes `p` to the profile file's text.
pub fn render(p: &Profile) -> (r: String)
    ensures
        r@ == render_spec(p@),
{
    let mut out = String::new();
    out.append("access_key = \"");
    out.append(p.access_key.as_str());
    out.append("\"\nsecret_key = \"");
    out.append(p.secret_key.as_str());
    out.append("\"\nbucket = \"");
    out.append(p.bucket.as_str());
    out.append("\"\nendpoint = \"");
    out.append(p.endpoint.as_str());
    out.append("\"\nregion = \"");
    out.append(p.region.as_str());
    out.append("\"");
    proof {
        assert(out@ =~= render_spec(p@));
    }
    out
}

/// Reads one field: the fixed text `lit` at `pos`, then the value up to the
/// next quote.
fn take_field(s: &str, pos: usize, lit: &str) -> (r: Option<(String, usize)>)
    ensures
        match r {
            Some(v) => {
                &&& parse_field(s@, pos as int, lit@) == Some((v.0@, v.1 as int))
                &&& v.1 < s@.len()
            },
            None => parse_field(s@, pos as int, lit@) is None,
        },
{
    if !crate::text::str_matches_at(s, pos, lit) {
        return None;
    }
    let n = s.unicode_len();
    let start = pos + lit.unicode_len();
    match crate::text::str_find_char_from(s, '"', start) {
        None => None,
        Some(end) => {
            proof {
                lemma_find_char_props(s@, '"', start as int);
            }
            let value = s.substring_char(start, end).to_owned();
            Some((value, end))
        },
    }
}

/// Deserializes profile file text; `None` when the text is not of the
/// rendered shape.
pub fn parse(s: &str) -> (r: Option<Profile>)
    ensures
        match r {
            Some(p) => parse_spec(s@) == Some(p@),
            None => parse_spec(s@) is None,
        },
{
    let f1 = take_field(s, 0, "access_key = \"");
    match f1 {
        None => None,
        Some((access_key, p1)) => match take_field(s, p1, "\"\nsecret_key = \"") {
            None => None,
            Some((secret_key, p2)) => match take_field(s, p2, "\"\nbucket = \"") {
                None => None,
                Some((bucket, p3)) => match take_field(s, p3, "\"\nendpoint = \"") {
                    None => None,
                    Some((endpoint, p4)) => match take_field(s, p4, "\"\nregion = \"") {
                        None => None,
                        Some((region, p5)) => {
                            let n = s.unicode_len();
                            if p5 + 1 == n {
                                Some(Profile { access_key, secret_key, bucket, endpoint, region })
                            } else {
                                None
                            }
                        },
                    },
                },
            },
        },
    }
}

/// Why the persisted profile could not be read or written.
pub enum ConfigError {
    Missing,
    Corrupt,
    WriteError,
}

impl ConfigError {
    /// Human-readable message; a missing profile points the user at the
    /// set-config command.
    pub fn message(&self) -> (r: String)
        ensures
            match *self {
                ConfigError::Missing => r@
                    == "config file is not set, please run \nbkt set --config <access-key> <secret-key> <bucket> <endpoint> <region>"@,
                ConfigError::Corrupt => r@
                    == "config file is corrupt, please run the set action again"@,
                ConfigError::WriteError => r@ == "could not write the config file"@,
            },
    {
        match self {
            ConfigError::Missing => String::from_str(
                "config file is not set, please run \nbkt set --config <access-key> <secret-key> <bucket> <endpoint> <region>",
            ),
            ConfigError::Corrupt => String::from_str(
                "config file is corrupt, please run the set action again",
            ),
            ConfigError::WriteError => String::from_str("could not write the config file"),
        }
    }
}

/// Classifies what reading the profile file yielded: no file at all is
/// `Missing`, text that is not of the rendered shape is `Corrupt`.
pub fn load_from_text(text: Option<&str>) -> (r: Result<Profile, ConfigError>)
    ensures
        match text {
            None => r == Err::<Profile, ConfigError>(ConfigError::Missing),
            Some(s) => match parse_spec(s@) {
                Some(pv) => r matches Ok(p) && p@ == pv,
                None => r == Err::<Profile, ConfigError>(ConfigError::Corrupt),
            },
        },
{
    match text {
        None => Err(ConfigError::Missing),
        Some(s) => match parse(s) {
            Some(p) => Ok(p),
            None => Err(ConfigError::Corrupt),
        },
    }
}

/// Parsing a rendered field back: where the tail of `s` at `pos` is
/// `lit + v + rest`, `v` quote-free and `rest` opening with a quote, the
/// field parser returns exactly `v` and stops on that quote.
proof fn lemma_parse_field_of_render(
    s: Seq<char>,
    pos: int,
    lit: Seq<char>,
    v: Seq<char>,
    rest: Seq<char>,
)
    requires
        0 <= pos <= s.len(),
        s.subrange(pos, s.len() as int) == lit + v + rest,
        quote_free(v),
        rest.len() > 0,
        rest[0] == '"',
    ensures
        parse_field(s, pos, lit) == Some((v, pos + lit.len() + v.len())),
        s.subrange(pos + lit.len() + v.len(), s.len() as int) == rest,
{
    let tail = s.subrange(pos, s.len() as int);
    let cat = lit + v + rest;
    assert(tail.len() == s.len() - pos);
    assert(cat.len() == lit.len() + v.len() + rest.len());
    let vstart: int = pos + lit.len();
    let vend: int = vstart + v.len();

    assert(cat.subrange(0, lit.len() as int) =~= lit);
    s.lemma_slice_of_slice(pos, s.len() as int, 0, lit.len() as int);
    assert(s.subrange(pos, pos + lit.len() as int) == lit);
    assert(matches_at(s, pos, lit));

    assert(cat.subrange(lit.len() as int, (lit.len() + v.len()) as int) =~= v);
    s.lemma_slice_of_slice(pos, s.len() as int, lit.len() as int, (lit.len() + v.len()) as int);
    assert(s.subrange(vstart, vend) == v);

    assert(cat.subrange((lit.len() + v.len()) as int, cat.len() as int) =~= rest);
    s.lemma_slice_of_slice(
        pos,
        s.len() as int,
        (lit.len() + v.len()) as int,
        (s.len() - pos) as int,
    );
    assert(s.subrange(vend, s.len() as int) == rest);

    assert(s[vend] == '"') by {
        assert(s.subrange(vend, s.len() as int)[0] == s[vend]);
    }
    assert forall|k: int| vstart <= k < vend implies s[k] != '"' by {
        assert(s.subrange(vstart, vend)[k - vstart] == s[k]);
        assert(v[k - vstart] != '"');
    }
    lemma_find_char_first(s, '"', vstart, vend);
}

/// The round-trip law of the profile file: saving a profile and loading the
/// written text returns the same five fields, for any field values free of
/// the quote delimiter.
pub proof fn lemma_render_parse_round_trip(p: ProfileView)
    requires
        profile_quote_free(p),
    ensures
        parse_spec(render_spec(p)) == Some(p),
{
    reveal_strlit("access_key = \"");
    reveal_strlit("\"\nsecret_key = \"");
    reveal_strlit("\"\nbucket = \"");
    reveal_strlit("\"\nendpoint = \"");
    reveal_strlit("\"\nregion = \"");
    reveal_strlit("\"");
    let s = render_spec(p);
    let rest1 = lit_secret() + p.secret_key + lit_bucket() + p.bucket + lit_endpoint()
        + p.endpoint + lit_region() + p.region + lit_close();
    assert(s.subrange(0, s.len() as int) =~= lit_access() + p.access_key + rest1);
    lemma_parse_field_of_render(s, 0, lit_access(), p.access_key, rest1);
    let p1: int = (lit_access().len() + p.access_key.len()) as int;

    let rest2 = lit_bucket() + p.bucket + lit_endpoint() + p.endpoint + lit_region() + p.region
        + lit_close();
    assert(rest1 =~= lit_secret() + p.secret_key + rest2);
    lemma_parse_field_of_render(s, p1, lit_secret(), p.secret_key, rest2);
    let p2: int = p1 + lit_secret().len() + p.secret_key.len();

    let rest3 = lit_endpoint() + p.endpoint + lit_region() + p.region + lit_close();
    assert(rest2 =~= lit_bucket() + p.bucket + rest3);
    lemma_parse_field_of_render(s, p2, lit_bucket(), p.bucket, rest3);
    let p3: int = p2 + lit_bucket().len() + p.bucket.len();

    let rest4 = lit_region() + p.region + lit_close();
    assert(rest3 =~= lit_endpoint() + p.endpoint + rest4);
    lemma_parse_field_of_render(s, p3, lit_endpoint(), p.endpoint, rest4);
    let p4: int = p3 + lit_endpoint().len() + p.endpoint.len();

    let rest5 = lit_close();
    assert(rest4 =~= lit_region() + p.region + rest5);
    lemma_parse_field_of_render(s, p4, lit_region(), p.region, rest5);
    let p5: int = p4 + lit_region().len() + p.region.len();

    assert(p5 + 1 == s.len());
    assert(parse_spec(s) == Some(
        ProfileView {
            access_key: p.access_key,
            secret_key: p.secret_key,
            bucket: p.bucket,
            endpoint: p.endpoint,
            region: p.region,
        },
    ));
    assert(ProfileView {
        access_key: p.access_key,
        secret_key: p.secret_key,
        bucket: p.bucket,
        endpoint: p.endpoint,
        region: p.region,
    } == p);
}

} // verus!
