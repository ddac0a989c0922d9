//! Process configuration, read once at startup so a bad value fails the boot
//! rather than the first request.

use crate::auth::token::{keys_view, KeyMaterial, KeyView};
use crate::common::settings::{setting, settings_view, var};
use crate::common::text::{
    law_split_gives_both_sides, lemma_find, number, parse_number, split_at_first, split_once, trim,
    trimmed,
};
use crate::common::time::Span;
use std::num::ParseIntError;
use vstd::prelude::*;

verus! {

/// Why [`Config::from_env`] could not produce a usable configuration.
#[derive(Debug)]
pub enum ConfigError {
    /// A duration variable was set to something that is not a number of
    /// seconds.
    InvalidDuration {
        /// The offending environment variable.
        key: &'static str,
        /// The underlying parse failure.
        source: ParseIntError,
    },
}

impl ConfigError {
    /// What to tell whoever started the process.
    pub fn to_string(&self) -> (r: String)
        ensures
            r@ == match self {
                ConfigError::InvalidDuration { key, .. } => key@
                    + " must be a whole number of seconds"@,
            },
    {
        match self {
            ConfigError::InvalidDuration { key, .. } => {
                let mut r: String = (*key).to_owned();
                r.append(" must be a whole number of seconds");
                r
            },
        }
    }
}

/// Values read from the environment at startup.
pub struct Config {
    /// Address the HTTP listener binds to.
    pub bind_addr: String,
    /// Key currently used to sign tokens.
    pub active_key: KeyMaterial,
    /// Keys no longer used for signing but still accepted for verification,
    /// so a rotation does not invalidate every live session.
    pub retired_keys: Vec<KeyMaterial>,
    /// How long an issued token remains valid.
    pub token_ttl: Span,
    /// Username of the seeded account.
    pub seed_username: String,
    /// Password of that account, in plain text; hashed during seeding.
    pub seed_password: String,
    /// Base URL of the profile service the gateway forwards to.
    pub profile_service_url: String,
    /// Shared secret presented on the internal hop.
    pub internal_token: String,
}

/// What a configuration says.
#[verifier::ext_equal]
pub struct ConfigView {
    /// Address the HTTP listener binds to.
    pub bind_addr: Seq<char>,
    /// Key currently used to sign tokens.
    pub active_key: KeyView,
    /// Keys still accepted for verification.
    pub retired_keys: Seq<KeyView>,
    /// How long an issued token remains valid.
    pub token_ttl: Span,
    /// Username of the seeded account.
    pub seed_username: Seq<char>,
    /// Password of that account.
    pub seed_password: Seq<char>,
    /// Base URL of the profile service.
    pub profile_service_url: Seq<char>,
    /// Shared secret presented on the internal hop.
    pub internal_token: Seq<char>,
}

impl View for Config {
    type V = ConfigView;

    open spec fn view(&self) -> ConfigView {
        ConfigView {
            bind_addr: self.bind_addr@,
            active_key: self.active_key@,
            retired_keys: keys_view(self.retired_keys@),
            token_ttl: self.token_ttl,
            seed_username: self.seed_username@,
            seed_password: self.seed_password@,
            profile_service_url: self.profile_service_url@,
            internal_token: self.internal_token@,
        }
    }
}

/// The setting that says how long a token is valid.
pub const TTL_KEY: &'static str = "TOKEN_TTL_SECS";

/// The configuration that settings give, where a token is valid for `secs`
/// seconds.
pub open spec fn configured(settings: Seq<(Seq<char>, Seq<char>)>, secs: u64) -> ConfigView {
    ConfigView {
        bind_addr: setting(settings, "AUTH_BIND_ADDR"@, "127.0.0.1:8080"@),
        active_key: KeyView {
            kid: setting(settings, "JWT_ACTIVE_KID"@, "k1"@),
            secret: setting(settings, "JWT_SECRET"@, "dev-only-insecure-jwt-secret-change-me"@),
        },
        retired_keys: retired_keys(setting(settings, "JWT_RETIRED_KEYS"@, ""@)),
        token_ttl: Span { nanos: (secs * 1_000_000_000) as u128 },
        seed_username: setting(settings, "SEED_USERNAME"@, "alice"@),
        seed_password: setting(settings, "SEED_PASSWORD"@, "correct-horse-battery-staple"@),
        profile_service_url: setting(settings, "PROFILE_SERVICE_URL"@, "http://127.0.0.1:8081"@),
        internal_token: setting(
            settings,
            "INTERNAL_TOKEN"@,
            "dev-only-internal-token-change-me"@,
        ),
    }
}

/// What may be shown of the configuration: no secret.
///
/// Printing the configuration itself would print the signing key and the seed
/// password the first time anything logged it.
#[derive(Debug)]
pub struct ConfigSummary {
    /// Address the HTTP listener binds to.
    pub bind_addr: String,
    /// Id of the key currently used to sign tokens.
    pub active_kid: String,
    /// Ids of the keys still accepted for verification.
    pub retired_kids: Vec<String>,
    /// How long an issued token remains valid.
    pub token_ttl: Span,
    /// Username of the seeded account.
    pub seed_username: String,
    /// Always `<redacted>`.
    pub seed_password: String,
    /// Base URL of the profile service.
    pub profile_service_url: String,
    /// Always `<redacted>`.
    pub internal_token: String,
}

impl Config {
    /// Reads configuration from the environment's settings, falling back to
    /// development defaults. Fails exactly where `TOKEN_TTL_SECS` is set to a
    /// value that is not a whole number.
    pub fn from_env(settings: &Vec<(String, String)>) -> (r: Result<Config, ConfigError>)
        ensures
            match number(setting(settings_view(settings@), TTL_KEY@, "900"@)) {
                Some(secs) => r matches Ok(config) && config@ == configured(
                    settings_view(settings@),
                    secs,
                ),
                None => r matches Err(ConfigError::InvalidDuration { key, .. }) && key@ == TTL_KEY@,
            },
    {
        let token_ttl = match parse_number(var(settings, TTL_KEY, "900").as_str()) {
            Ok(secs) => Span::from_secs(secs),
            Err(source) => {
                return Err(ConfigError::InvalidDuration { key: TTL_KEY, source });
            },
        };
        Ok(
            Config {
                bind_addr: var(settings, "AUTH_BIND_ADDR", "127.0.0.1:8080"),
                // Development default. A production deployment would source
                // this from a secret manager and refuse to boot without it.
                active_key: KeyMaterial::new(
                    var(settings, "JWT_ACTIVE_KID", "k1").as_str(),
                    var(settings, "JWT_SECRET", "dev-only-insecure-jwt-secret-change-me").as_str(),
                ),
                retired_keys: parse_retired(var(settings, "JWT_RETIRED_KEYS", "").as_str()),
                token_ttl,
                seed_username: var(settings, "SEED_USERNAME", "alice"),
                seed_password: var(settings, "SEED_PASSWORD", "correct-horse-battery-staple"),
                profile_service_url: var(
                    settings,
                    "PROFILE_SERVICE_URL",
                    "http://127.0.0.1:8081",
                ),
                internal_token: var(
                    settings,
                    "INTERNAL_TOKEN",
                    "dev-only-internal-token-change-me",
                ),
            },
        )
    }

    /// What may be shown of the configuration.
    pub fn summary(&self) -> (r: ConfigSummary)
        ensures
            r.bind_addr@ == self@.bind_addr,
            r.active_kid@ == self@.active_key.kid,
            r.retired_kids@.len() == self@.retired_keys.len(),
            forall|i: int|
                0 <= i < r.retired_kids@.len() ==> (#[trigger] r.retired_kids@[i])@
                    == self@.retired_keys[i].kid,
            r.token_ttl == self@.token_ttl,
            r.seed_username@ == self@.seed_username,
            r.seed_password@ == "<redacted>"@,
            r.profile_service_url@ == self@.profile_service_url,
            r.internal_token@ == "<redacted>"@,
    {
        let mut retired_kids: Vec<String> = Vec::new();
        let mut i: usize = 0;
        while i < self.retired_keys.len()
            invariant
                i <= self.retired_keys.len(),
                retired_kids@.len() == i,
                forall|j: int|
                    0 <= j < i ==> (#[trigger] retired_kids@[j])@ == self.retired_keys@[j].kid@,
            decreases self.retired_keys.len() - i,
        {
            retired_kids.push(self.retired_keys[i].kid.clone());
            i = i + 1;
        }
        ConfigSummary {
            bind_addr: self.bind_addr.clone(),
            active_kid: self.active_key.kid.clone(),
            retired_kids,
            token_ttl: self.token_ttl,
            seed_username: self.seed_username.clone(),
            seed_password: "<redacted>".to_owned(),
            profile_service_url: self.profile_service_url.clone(),
            internal_token: "<redacted>".to_owned(),
        }
    }
}

impl Clone for Config {
    fn clone(&self) -> (r: Config)
        ensures
            r@ == self@,
    {
        let mut keys: Vec<KeyMaterial> = Vec::new();
        let mut i: usize = 0;
        while i < self.retired_keys.len()
            invariant
                i <= self.retired_keys.len(),
                keys@.len() == i,
                forall|j: int| 0 <= j < i ==> (#[trigger] keys@[j])@ == self.retired_keys@[j]@,
            decreases self.retired_keys.len() - i,
        {
            keys.push(self.retired_keys[i].clone());
            i = i + 1;
        }
        assert(keys_view(keys@) =~= keys_view(self.retired_keys@));
        Config {
            bind_addr: self.bind_addr.clone(),
            active_key: self.active_key.clone(),
            retired_keys: keys,
            token_ttl: self.token_ttl,
            seed_username: self.seed_username.clone(),
            seed_password: self.seed_password.clone(),
            profile_service_url: self.profile_service_url.clone(),
            internal_token: self.internal_token.clone(),
        }
    }
}

/// The key that one `kid=secret` entry names, if it is well formed: neither
/// side may be empty, and white space round the id is dropped.
pub open spec fn retired_key(entry: Seq<char>) -> Option<KeyView> {
    match split_at_first(entry, '=') {
        Some((kid, secret)) => if trimmed(kid).len() > 0 && secret.len() > 0 {
            Some(KeyView { kid: trimmed(kid), secret })
        } else {
            None
        },
        None => None,
    }
}

/// The keys in front of others, if there is one.
pub open spec fn before(key: Option<KeyView>, keys: Seq<KeyView>) -> Seq<KeyView> {
    match key {
        Some(key) => seq![key] + keys,
        None => keys,
    }
}

/// The keys that `kid=secret;kid=secret` names. Malformed entries are skipped
/// rather than failing the boot: a typo in a *retired* key must not take the
/// service down, and the consequence is only that tokens signed by it stop
/// verifying, which rotation was going to do anyway.
pub open spec fn retired_keys(raw: Seq<char>) -> Seq<KeyView>
    decreases raw.len(),
{
    proof {
        lemma_find(raw, ';', 0);
    }
    match split_at_first(raw, ';') {
        Some((entry, rest)) => before(retired_key(entry), retired_keys(rest)),
        None => before(retired_key(raw), Seq::empty()),
    }
}

/// Reads one `kid=secret` entry.
fn parse_entry(entry: &str) -> (r: Option<KeyMaterial>)
    ensures
        match r {
            Some(key) => retired_key(entry@) == Some(key@),
            None => retired_key(entry@) is None,
        },
{
    match split_once(entry, '=') {
        Some((kid, secret)) => {
            let kid = trim(kid.as_str());
            if kid.as_str().is_empty() || secret.as_str().is_empty() {
                None
            } else {
                Some(KeyMaterial { kid, secret })
            }
        },
        None => None,
    }
}

/// Parses `kid=secret;kid=secret` into retired verification keys.
pub fn parse_retired(raw: &str) -> (r: Vec<KeyMaterial>)
    ensures
        keys_view(r@) == retired_keys(raw@),
{
    let mut keys: Vec<KeyMaterial> = Vec::new();
    let mut rest: String = raw.to_owned();
    assert(keys_view(keys@) + retired_keys(rest@) =~= retired_keys(raw@));
    loop
        invariant
            keys_view(keys@) + retired_keys(rest@) == retired_keys(raw@),
        decreases rest@.len(),
    {
        proof {
            lemma_find(rest@, ';', 0);
        }
        let ghost known = keys_view(keys@);
        match split_once(rest.as_str(), ';') {
            Some((entry, tail)) => {
                if let Some(key) = parse_entry(entry.as_str()) {
                    keys.push(key);
                    assert(keys_view(keys@) =~= known.push(key@));
                    assert(keys_view(keys@) + retired_keys(tail@) =~= known + (seq![key@]
                        + retired_keys(tail@)));
                }
                rest = tail;
            },
            None => {
                if let Some(key) = parse_entry(rest.as_str()) {
                    keys.push(key);
                    assert(keys_view(keys@) =~= known.push(key@));
                }
                assert(keys_view(keys@) =~= retired_keys(raw@));
                return keys;
            },
        }
    }
}

/// Each part of the configuration is the setting of its own name, or its own
/// default, and no other setting touches it.
pub proof fn law_each_setting_has_its_place(settings: Seq<(Seq<char>, Seq<char>)>, secs: u64)
    ensures
        ({
            let config = configured(settings, secs);
            &&& config.bind_addr == setting(settings, "AUTH_BIND_ADDR"@, "127.0.0.1:8080"@)
            &&& config.active_key.kid == setting(settings, "JWT_ACTIVE_KID"@, "k1"@)
            &&& config.active_key.secret == setting(
                settings,
                "JWT_SECRET"@,
                "dev-only-insecure-jwt-secret-change-me"@,
            )
            &&& config.token_ttl.nanos == secs * 1_000_000_000
            &&& config.token_ttl.secs() == secs
            &&& config.seed_username == setting(settings, "SEED_USERNAME"@, "alice"@)
            &&& config.seed_password == setting(
                settings,
                "SEED_PASSWORD"@,
                "correct-horse-battery-staple"@,
            )
            &&& config.profile_service_url == setting(
                settings,
                "PROFILE_SERVICE_URL"@,
                "http://127.0.0.1:8081"@,
            )
            &&& config.internal_token == setting(
                settings,
                "INTERNAL_TOKEN"@,
                "dev-only-internal-token-change-me"@,
            )
            &&& config.retired_keys == retired_keys(setting(settings, "JWT_RETIRED_KEYS"@, ""@))
        }),
{
}

/// A list of keys is read entry by entry: what stands before the first semicolon
/// is one entry, and the rest is a list again. Each well-formed entry is a key,
/// in its place, and no other leaves anything.
pub proof fn law_retired_keys_are_read_in_order(
    kid: Seq<char>,
    secret: Seq<char>,
    junk: Seq<char>,
    rest: Seq<char>,
)
    requires
        !kid.contains(';') && !kid.contains('='),
        !secret.contains(';'),
        !junk.contains(';') && !junk.contains('='),
    ensures
        trimmed(kid).len() > 0 && secret.len() > 0 ==> retired_keys(
            kid + seq!['='] + secret + seq![';'] + rest,
        ) == seq![KeyView { kid: trimmed(kid), secret }] + retired_keys(rest),
        trimmed(kid).len() > 0 && secret.len() > 0 ==> retired_keys(kid + seq!['='] + secret)
            == seq![KeyView { kid: trimmed(kid), secret }],
        trimmed(kid).len() == 0 || secret.len() == 0 ==> retired_keys(
            kid + seq!['='] + secret + seq![';'] + rest,
        ) == retired_keys(rest),
        retired_keys(junk + seq![';'] + rest) == retired_keys(rest),
        retired_keys(junk) == Seq::<KeyView>::empty(),
{
    let entry = kid + seq!['='] + secret;
    assert(!entry.contains(';')) by {
        if entry.contains(';') {
            let i = choose|i: int| 0 <= i < entry.len() && entry[i] == ';';
            if i < kid.len() {
                assert(kid[i] == ';');
            } else if i > kid.len() {
                assert(secret[i - kid.len() - 1] == ';');
            }
        }
    }
    law_split_gives_both_sides(kid, '=', secret);
    law_split_gives_both_sides(entry, ';', rest);
    law_split_gives_both_sides(junk, ';', rest);
    law_split_gives_both_sides(junk, '=', rest);
    lemma_find(entry, ';', 0);
    assert(seq![KeyView { kid: trimmed(kid), secret }] + Seq::<KeyView>::empty() =~= seq![
        KeyView { kid: trimmed(kid), secret },
    ]);
}

/// A configuration is seen whole.
pub proof fn law_a_configuration_is_seen_whole(config: Config)
    ensures
        config@.bind_addr == config.bind_addr@,
        config@.active_key == config.active_key@,
        config@.retired_keys == keys_view(config.retired_keys@),
        config@.token_ttl == config.token_ttl,
        config@.seed_username == config.seed_username@,
        config@.seed_password == config.seed_password@,
        config@.profile_service_url == config.profile_service_url@,
        config@.internal_token == config.internal_token@,
{
}

} // verus!
