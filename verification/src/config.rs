//! Tier-1 bootstrap configuration: the secrets leaf needs before it can
//! connect to anything, and the shape rules they must meet.
//!
//! Reading and writing the TOML file is the caller's I/O; this module holds
//! the values, their validation and their secret-free debug rendering.

use vstd::prelude::*;

use crate::text::{has_prefix, push_str, str_starts_with, trim, trim_str};

verus! {

/// File name of the Tier-1 config inside the data directory.
pub const CONFIG_FILE_NAME: &'static str = "leaf.conf";

/// Errors loading or persisting Tier-1 configuration.
#[derive(Debug, Clone, PartialEq, Eq)]
pub enum ConfigError {
    /// Filesystem failure.
    Io(String),
    /// File exists but does not parse as valid config.
    Parse(String),
    /// Serialization failure (programming error).
    Serialize(String),
    /// A required field is empty.
    EmptyField(&'static str),
    /// The public URL is not an http(s) origin.
    BadPublicUrl,
}

/// The user-facing text of a configuration error.
pub open spec fn config_error_text(e: ConfigError) -> Seq<char> {
    match e {
        ConfigError::Io(m) => "config io: "@ + m@,
        ConfigError::Parse(m) => "config parse: "@ + m@,
        ConfigError::Serialize(m) => "config serialize: "@ + m@,
        ConfigError::EmptyField(f) => "config field `"@ + f@ + "` must not be empty"@,
        ConfigError::BadPublicUrl => "public_url must start with https:// (or http://localhost for dev)"@,
    }
}

impl ConfigError {
    /// The error's message (its `Display` text).
    pub fn message(&self) -> (r: String)
        ensures
            r@ == config_error_text(*self),
    {
        let mut s = String::new();
        match self {
            ConfigError::Io(m) => {
                push_str(&mut s, "config io: ");
                push_str(&mut s, m.as_str());
            },
            ConfigError::Parse(m) => {
                push_str(&mut s, "config parse: ");
                push_str(&mut s, m.as_str());
            },
            ConfigError::Serialize(m) => {
                push_str(&mut s, "config serialize: ");
                push_str(&mut s, m.as_str());
            },
            ConfigError::EmptyField(f) => {
                push_str(&mut s, "config field `");
                push_str(&mut s, f);
                push_str(&mut s, "` must not be empty");
            },
            ConfigError::BadPublicUrl => {
                push_str(&mut s, "public_url must start with https:// (or http://localhost for dev)");
            },
        }
        assert(s@ =~= config_error_text(*self));
        s
    }
}

/// R2 credentials (S3-compatible endpoint).
#[derive(Clone, PartialEq, Eq)]
pub struct R2Config {
    /// S3 endpoint, e.g. `https://<account>.r2.cloudflarestorage.com`.
    pub endpoint: String,
    /// Bucket name.
    pub bucket: String,
    /// Access key id.
    pub access_key_id: String,
    /// Secret access key.
    pub secret_access_key: String,
}

/// The Tier-1 bootstrap secrets.
#[derive(Clone, PartialEq, Eq)]
pub struct Tier1Config {
    /// Discord bot token.
    pub discord_token: String,
    /// Discord application (client) id.
    pub client_id: String,
    /// Discord OAuth client secret.
    pub client_secret: String,
    /// Public HTTPS origin the embedded app is served from.
    pub public_url: String,
    /// Object storage credentials.
    pub r2: R2Config,
}

/// A value that is empty once surrounding whitespace is trimmed.
pub open spec fn blank(s: Seq<char>) -> bool {
    trim(s).len() == 0
}

/// The first required field that is blank, in the order the setup form
/// lists them.
pub open spec fn first_blank_field(c: Tier1Config) -> Option<Seq<char>> {
    if blank(c.discord_token@) {
        Some("discord_token"@)
    } else if blank(c.client_id@) {
        Some("client_id"@)
    } else if blank(c.client_secret@) {
        Some("client_secret"@)
    } else if blank(c.public_url@) {
        Some("public_url"@)
    } else if blank(c.r2.endpoint@) {
        Some("r2.endpoint"@)
    } else if blank(c.r2.bucket@) {
        Some("r2.bucket"@)
    } else if blank(c.r2.access_key_id@) {
        Some("r2.access_key_id"@)
    } else if blank(c.r2.secret_access_key@) {
        Some("r2.secret_access_key"@)
    } else {
        None
    }
}

/// The public URL is an https origin, or a local http one for development.
pub open spec fn public_url_ok(url: Seq<char>) -> bool {
    has_prefix(url, "https://"@) || has_prefix(url, "http://localhost"@) || has_prefix(
        url,
        "http://127.0.0.1"@,
    )
}

/// What validation answers: the first blank field, else a bad public URL,
/// else success.
pub open spec fn validate_spec(c: Tier1Config) -> Result<(), Seq<char>> {
    match first_blank_field(c) {
        Some(f) => Err(f),
        None => if public_url_ok(c.public_url@) {
            Ok(())
        } else {
            Err("public_url"@)
        },
    }
}

/// `{:?}` of a string: quoted, with std's debug escapes.
pub uninterp spec fn debug_quoted(s: Seq<char>) -> Seq<char>;

/// Text that std's `Debug` for `str` prints as it is: printable ASCII
/// other than `"` and `\\`.
pub open spec fn debug_plain(s: Seq<char>) -> bool {
    forall|i: int| 0 <= i < s.len() ==> ' ' <= #[trigger] s[i] <= '~' && s[i] != '"' && s[i] != '\\'
}

/// `needle` occurs somewhere in `hay`.
pub open spec fn occurs_in(hay: Seq<char>, needle: Seq<char>) -> bool {
    exists|k: int| 0 <= k && k + needle.len() <= hay.len() && #[trigger] hay.subrange(k, k + needle.len()) == needle
}

/// Renders `s` with std's `Debug` for `str` (quotes and escapes). Claimed:
/// the result is `debug_quoted` of the text, and text that `escape_debug`
/// leaves alone (printable ASCII other than a double quote or a
/// backslash) comes out between two double quotes, unchanged.
#[verifier::external_body]
fn push_debug_quoted(out: &mut String, s: &str)
    ensures
        final(out)@ == old(out)@ + debug_quoted(s@),
        debug_plain(s@) ==> final(out)@ == old(out)@ + "\""@ + s@ + "\""@,
{
    out.push_str(&format!("{s:?}"));
}

/// The debug rendering of the R2 credentials, secrets redacted.
pub open spec fn r2_debug_text(r: R2Config) -> Seq<char> {
    "R2Config { endpoint: "@ + debug_quoted(r.endpoint@) + ", bucket: "@ + debug_quoted(r.bucket@)
        + ", access_key_id: \"<redacted>\", secret_access_key: \"<redacted>\" }"@
}

/// The debug rendering of the Tier-1 config, secrets redacted.
pub open spec fn tier1_debug_text(c: Tier1Config) -> Seq<char> {
    "Tier1Config { discord_token: \""@ + "<redacted>"@ + "\", client_id: "@ + debug_quoted(
        c.client_id@,
    ) + ", client_secret: \"<redacted>\", public_url: "@ + debug_quoted(c.public_url@) + ", r2: "@
        + r2_debug_text(c.r2) + " }"@
}

/// Two configs that differ at most in their secrets: the bot token, the
/// client secret and the R2 access key id and secret.
pub open spec fn same_but_secrets(a: Tier1Config, b: Tier1Config) -> bool {
    &&& a.client_id@ == b.client_id@
    &&& a.public_url@ == b.public_url@
    &&& a.r2.endpoint@ == b.r2.endpoint@
    &&& a.r2.bucket@ == b.r2.bucket@
}

/// No secret reaches the debug rendering: configs that differ only in their
/// secrets render the same text.
pub proof fn lemma_debug_text_hides_secrets(a: Tier1Config, b: Tier1Config)
    requires
        same_but_secrets(a, b),
    ensures
        tier1_debug_text(a) == tier1_debug_text(b),
{
}

proof fn lemma_occurs_in_middle(x: Seq<char>, y: Seq<char>, z: Seq<char>)
    ensures
        occurs_in(x + y + z, y),
{
    assert((x + y + z).subrange(x.len() as int, (x.len() + y.len()) as int) =~= y);
}

fn is_blank(s: &String) -> (r: bool)
    ensures
        r == blank(s@),
{
    trim_str(s.as_str()).len() == 0
}

impl R2Config {
    /// Debug rendering with the access key id and secret redacted: secrets
    /// must never reach logs, even at trace level.
    pub fn debug_text(&self) -> (r: String)
        ensures
            r@ == r2_debug_text(*self),
    {
        let mut s = String::new();
        push_str(&mut s, "R2Config { endpoint: ");
        push_debug_quoted(&mut s, self.endpoint.as_str());
        push_str(&mut s, ", bucket: ");
        push_debug_quoted(&mut s, self.bucket.as_str());
        push_str(&mut s, ", access_key_id: \"<redacted>\", secret_access_key: \"<redacted>\" }");
        assert(s@ =~= r2_debug_text(*self));
        s
    }
}

impl Tier1Config {
    /// Debug rendering with the bot token, client secret and R2 secrets
    /// redacted; the non-secret fields stay visible for debuggability.
    pub fn debug_text(&self) -> (r: String)
        ensures
            r@ == tier1_debug_text(*self),
            occurs_in(r@, "<redacted>"@),
            debug_plain(self.client_id@) ==> occurs_in(r@, self.client_id@),
            debug_plain(self.public_url@) ==> occurs_in(r@, self.public_url@),
    {
        let mut s = String::new();
        push_str(&mut s, "Tier1Config { discord_token: \"");
        let ghost s0 = s@;
        push_str(&mut s, "<redacted>");
        let ghost sr = s@;
        push_str(&mut s, "\", client_id: ");
        let ghost s1 = s@;
        push_debug_quoted(&mut s, self.client_id.as_str());
        let ghost s2 = s@;
        push_str(&mut s, ", client_secret: \"<redacted>\", public_url: ");
        let ghost s3 = s@;
        push_debug_quoted(&mut s, self.public_url.as_str());
        let ghost s4 = s@;
        push_str(&mut s, ", r2: ");
        let r2 = self.r2.debug_text();
        push_str(&mut s, r2.as_str());
        push_str(&mut s, " }");
        assert(s@ =~= tier1_debug_text(*self));
        proof {
            let tail = s@.skip(sr.len() as int);
            assert(s@ =~= s0 + "<redacted>"@ + tail);
            lemma_occurs_in_middle(s0, "<redacted>"@, tail);
            if debug_plain(self.client_id@) {
                let t = s@.skip(s2.len() as int);
                assert(s@ =~= (s1 + "\""@) + self.client_id@ + ("\""@ + t));
                lemma_occurs_in_middle(s1 + "\""@, self.client_id@, "\""@ + t);
            }
            if debug_plain(self.public_url@) {
                let t = s@.skip(s4.len() as int);
                assert(s@ =~= (s3 + "\""@) + self.public_url@ + ("\""@ + t));
                lemma_occurs_in_middle(s3 + "\""@, self.public_url@, "\""@ + t);
            }
        }
        s
    }

    /// Validates field shape (non-empty, plausible URL). Liveness (do the
    /// credentials actually work) is the setup flow's job, not this.
    pub fn validate(&self) -> (r: Result<(), ConfigError>)
        ensures
            match r {
                Ok(()) => validate_spec(*self) == Ok::<(), Seq<char>>(()),
                Err(ConfigError::EmptyField(f)) => first_blank_field(*self) == Some(f@),
                Err(ConfigError::BadPublicUrl) => first_blank_field(*self) is None && !public_url_ok(
                    self.public_url@,
                ),
                Err(_) => false,
            },
            r is Ok <==> validate_spec(*self) is Ok,
    {
        if is_blank(&self.discord_token) {
            return Err(ConfigError::EmptyField("discord_token"));
        }
        if is_blank(&self.client_id) {
            return Err(ConfigError::EmptyField("client_id"));
        }
        if is_blank(&self.client_secret) {
            return Err(ConfigError::EmptyField("client_secret"));
        }
        if is_blank(&self.public_url) {
            return Err(ConfigError::EmptyField("public_url"));
        }
        if is_blank(&self.r2.endpoint) {
            return Err(ConfigError::EmptyField("r2.endpoint"));
        }
        if is_blank(&self.r2.bucket) {
            return Err(ConfigError::EmptyField("r2.bucket"));
        }
        if is_blank(&self.r2.access_key_id) {
            return Err(ConfigError::EmptyField("r2.access_key_id"));
        }
        if is_blank(&self.r2.secret_access_key) {
            return Err(ConfigError::EmptyField("r2.secret_access_key"));
        }
        let url = self.public_url.as_str();
        let url_ok = str_starts_with(url, "https://") || str_starts_with(url, "http://localhost")
            || str_starts_with(url, "http://127.0.0.1");
        if !url_ok {
            return Err(ConfigError::BadPublicUrl);
        }
        Ok(())
    }
}

} // verus!
