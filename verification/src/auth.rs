//! JWT authentication decisions shared by every service: which requests
//! are checked, how the bearer token is taken from the `authorization`
//! metadata, when decoded claims are accepted, and what an outbound call
//! attaches. Signing and decoding tokens is done by the caller with
//! `jsonwebtoken`; this module decides around it.
use std::sync::Arc;
use vstd::prelude::*;

use crate::env::{concat, now_secs};
use crate::text::{is_prefix_of, str_eq, strip_prefix};

verus! {

/// The claims Coordin8 tokens carry. `sub` is the caller's identity;
/// `scope` and `iss` are optional.
#[derive(Debug)]
pub struct Claims {
    pub sub: String,
    pub exp: i64,
    pub iat: i64,
    pub scope: Option<String>,
    pub iss: Option<String>,
}

fn clone_opt(s: &Option<String>) -> (r: Option<String>)
    ensures
        r == *s,
{
    match s {
        Some(v) => Some(v.clone()),
        None => None,
    }
}

impl Clone for Claims {
    fn clone(&self) -> (r: Self)
        ensures
            r == *self,
    {
        Claims {
            sub: self.sub.clone(),
            exp: self.exp,
            iat: self.iat,
            scope: clone_opt(&self.scope),
            iss: clone_opt(&self.iss),
        }
    }
}

/// The claims of a token for `subject` minted at `now` (seconds since the
/// epoch) and valid for `ttl_secs` seconds.
pub fn token_claims(subject: &str, now: i64, ttl_secs: i64, scope: Option<String>, issuer: Option<String>) -> (c:
    Claims)
    requires
        i64::MIN <= now + ttl_secs <= i64::MAX,
    ensures
        c.sub@ == subject@,
        c.iat == now,
        c.exp == now + ttl_secs,
        c.scope == scope,
        c.iss == issuer,
{
    Claims { sub: subject.to_owned(), iat: now, exp: now + ttl_secs, scope, iss: issuer }
}

/// Why a request was refused. Every one of these is answered as
/// unauthenticated.
#[derive(Debug)]
pub enum AuthFailure {
    MissingMetadata,
    NotText,
    NotBearer,
    InvalidToken(String),
    MalformedToken(String),
    Expired,
    UntrustedIssuer,
}

impl AuthFailure {
    /// The message the refusal carries.
    pub fn message(&self) -> (m: String)
        ensures
            m@ == match self {
                AuthFailure::MissingMetadata => "missing authorization metadata"@,
                AuthFailure::NotText => "authorization metadata is not valid UTF-8"@,
                AuthFailure::NotBearer => "authorization metadata must be a Bearer token"@,
                AuthFailure::InvalidToken(e) => "invalid token: "@ + e@,
                AuthFailure::MalformedToken(e) => "malformed token: "@ + e@,
                AuthFailure::Expired => "token expired"@,
                AuthFailure::UntrustedIssuer => "token issuer not trusted"@,
            },
    {
        match self {
            AuthFailure::MissingMetadata => "missing authorization metadata".to_owned(),
            AuthFailure::NotText => "authorization metadata is not valid UTF-8".to_owned(),
            AuthFailure::NotBearer => "authorization metadata must be a Bearer token".to_owned(),
            AuthFailure::InvalidToken(e) => concat("invalid token: ", e.as_str()),
            AuthFailure::MalformedToken(e) => concat("malformed token: ", e.as_str()),
            AuthFailure::Expired => "token expired".to_owned(),
            AuthFailure::UntrustedIssuer => "token issuer not trusted".to_owned(),
        }
    }
}

/// The `authorization` metadata of a request, as far as it can be read.
#[derive(Debug)]
pub enum AuthHeader {
    Missing,
    NotText,
    Text(String),
}

/// The bearer token of the `authorization` metadata: the text after
/// `Bearer `.
pub fn extract_bearer_token(header: &AuthHeader) -> (r: Result<String, AuthFailure>)
    ensures
        match header {
            AuthHeader::Missing => r matches Err(AuthFailure::MissingMetadata),
            AuthHeader::NotText => r matches Err(AuthFailure::NotText),
            AuthHeader::Text(v) => if is_prefix_of("Bearer "@, v@) {
                r matches Ok(t) && t@ == v@.subrange("Bearer "@.len() as int, v@.len() as int)
            } else {
                r matches Err(AuthFailure::NotBearer)
            },
        },
{
    match header {
        AuthHeader::Missing => Err(AuthFailure::MissingMetadata),
        AuthHeader::NotText => Err(AuthFailure::NotText),
        AuthHeader::Text(v) => match strip_prefix(v.as_str(), "Bearer ") {
            Some(t) => Ok(t.to_owned()),
            None => Err(AuthFailure::NotBearer),
        },
    }
}

/// The outcome of the baseline checks at instant `now` (seconds): a token
/// whose expiry is not after `now` is refused, and so is one whose issuer
/// differs from the required one.
pub open spec fn baseline(claims: Claims, required_issuer: Option<Seq<char>>, now: i64) -> Result<(), AuthFailure> {
    if claims.exp <= now {
        Err(AuthFailure::Expired)
    } else if required_issuer is Some && !(claims.iss matches Some(i) && i@ == required_issuer->Some_0) {
        Err(AuthFailure::UntrustedIssuer)
    } else {
        Ok(())
    }
}

/// The view of an optional string.
pub open spec fn opt_view(s: Option<&str>) -> Option<Seq<char>> {
    match s {
        Some(v) => Some(v@),
        None => None,
    }
}

/// The baseline checks at instant `now`, in seconds.
pub fn validate_baseline_at(claims: &Claims, required_issuer: Option<&str>, now: i64) -> (r: Result<(), AuthFailure>)
    ensures
        r == baseline(*claims, opt_view(required_issuer), now),
{
    if claims.exp <= now {
        return Err(AuthFailure::Expired);
    }
    if let Some(required) = required_issuer {
        let trusted = match &claims.iss {
            Some(i) => str_eq(i.as_str(), required),
            None => false,
        };
        if !trusted {
            return Err(AuthFailure::UntrustedIssuer);
        }
    }
    Ok(())
}

/// The baseline checks now, by the wall clock.
pub fn validate_baseline(claims: &Claims, required_issuer: Option<&str>) -> (r: Result<(), AuthFailure>)
    ensures
        exists|now: i64| r == #[trigger] baseline(*claims, opt_view(required_issuer), now),
{
    let now = now_secs();
    validate_baseline_at(claims, required_issuer, now)
}

/// What a service's own outbound calls attach: nothing, or a token it
/// mints itself with its secret for `subject`.
#[derive(Debug)]
pub enum ClientStrategy {
    Trust,
    SelfMinted { secret: String, subject: String },
}

/// What checking a request asks for next: nothing (authentication is
/// off), or decoding `token`, verifying its signature with `verify_with`
/// when that is given.
#[derive(Debug)]
pub enum Admission {
    Open,
    Decode { token: String, verify_with: Option<String> },
}

/// One service's JWT validation settings.
pub struct AuthConfig {
    /// `None` turns authentication off.
    pub secret: Option<String>,
    /// When `false`, claims are decoded without checking the signature.
    pub verify_signature: bool,
    /// When set, tokens must carry this `iss`.
    pub issuer: Option<String>,
}

impl AuthConfig {
    /// Authentication off, signatures verified when it is turned on.
    pub fn default() -> (c: Self)
        ensures
            c.secret is None,
            c.verify_signature,
            c.issuer is None,
    {
        AuthConfig { secret: None, verify_signature: true, issuer: None }
    }

    /// The settings of the values of `COORDIN8_JWT_SECRET` and
    /// `COORDIN8_AUTH_VERIFY_SIGNATURE` (`None` when unset or unreadable):
    /// an empty secret turns authentication off, and signatures are
    /// verified unless the second says `false` or `0`.
    pub fn from_env(secret: Option<&str>, verify_signature: Option<&str>) -> (c: Self)
        ensures
            c.secret matches Some(s) ==> secret matches Some(v) && s@ == v@,
            c.secret is Some == (secret matches Some(v) && v@.len() > 0),
            c.verify_signature == match verify_signature {
                Some(v) => v@ != "false"@ && v@ != "0"@,
                None => true,
            },
            c.issuer is None,
    {
        let secret = match secret {
            Some(s) => if s.is_empty() {
                None
            } else {
                Some(s.to_owned())
            },
            None => None,
        };
        let verify_signature = match verify_signature {
            Some(v) => !str_eq(v, "false") && !str_eq(v, "0"),
            None => true,
        };
        AuthConfig { secret, verify_signature, issuer: None }
    }

    /// Require the `iss` claim `issuer` on every token.
    pub fn with_issuer(self, issuer: String) -> (c: Self)
        ensures
            c.secret == self.secret,
            c.verify_signature == self.verify_signature,
            c.issuer == Some(issuer),
    {
        AuthConfig { issuer: Some(issuer), ..self }
    }

    /// Whether anything is enforced.
    pub fn enabled(&self) -> (on: bool)
        ensures
            on == self.secret is Some,
    {
        self.secret.is_some()
    }

    /// What this service attaches to its own outbound calls as `subject`:
    /// a self-minted token under its secret when authentication is on,
    /// nothing otherwise.
    pub fn client_strategy(&self, subject: &str) -> (s: ClientStrategy)
        ensures
            self.secret is None ==> s is Trust,
            self.secret matches Some(secret) ==> s matches ClientStrategy::SelfMinted { secret: x, subject: y }
                && x == secret && y@ == subject@,
    {
        match &self.secret {
            Some(secret) => ClientStrategy::SelfMinted { secret: secret.clone(), subject: subject.to_owned() },
            None => ClientStrategy::Trust,
        }
    }

    /// First half of checking a request: with authentication off every
    /// request passes; otherwise the bearer token must be present, and is
    /// to be decoded, with the secret when signatures are verified.
    pub fn check_request(&self, header: &AuthHeader) -> (r: Result<Admission, AuthFailure>)
        ensures
            self.secret is None ==> r matches Ok(Admission::Open),
            self.secret matches Some(secret) ==> match extract_bearer_token_spec(*header) {
                Ok(t) => r matches Ok(Admission::Decode { token, verify_with }) && token@ == t && if self.verify_signature {
                    verify_with == Some(secret)
                } else {
                    verify_with is None
                },
                Err(e) => r == Err::<Admission, AuthFailure>(e),
            },
    {
        match &self.secret {
            None => Ok(Admission::Open),
            Some(secret) => {
                let token = match extract_bearer_token(header) {
                    Ok(t) => t,
                    Err(e) => {
                        return Err(e);
                    },
                };
                let verify_with = if self.verify_signature {
                    Some(secret.clone())
                } else {
                    None
                };
                Ok(Admission::Decode { token, verify_with })
            },
        }
    }

    /// Second half of checking a request at instant `now` (seconds): a
    /// token that did not decode is refused, and decoded claims pass the
    /// baseline checks against this service's issuer.
    pub fn accept_at(&self, decoded: Result<Claims, String>, now: i64) -> (r: Result<Claims, AuthFailure>)
        ensures
            acceptance(*self, decoded, now, r),
    {
        match decoded {
            Err(e) => if self.verify_signature {
                Err(AuthFailure::InvalidToken(e))
            } else {
                Err(AuthFailure::MalformedToken(e))
            },
            Ok(c) => {
                let required = match &self.issuer {
                    Some(i) => Some(i.as_str()),
                    None => None,
                };
                match validate_baseline_at(&c, required, now) {
                    Ok(()) => Ok(c),
                    Err(f) => Err(f),
                }
            },
        }
    }

    /// Second half of checking a request, now by the wall clock.
    pub fn accept(&self, decoded: Result<Claims, String>) -> (r: Result<Claims, AuthFailure>)
        ensures
            exists|now: i64| #[trigger] acceptance(*self, decoded, now, r),
    {
        let now = now_secs();
        self.accept_at(decoded, now)
    }
}

/// What the second half of checking a request answers at instant `now`
/// (seconds): a token that did not decode is refused as invalid (when
/// signatures are verified) or malformed, carrying the decoder's message;
/// decoded claims are accepted as they are when they pass the baseline
/// checks against the configured issuer, and refused as those checks say
/// otherwise.
pub open spec fn acceptance(
    config: AuthConfig,
    decoded: Result<Claims, String>,
    now: i64,
    r: Result<Claims, AuthFailure>,
) -> bool {
    match decoded {
        Err(e) => if config.verify_signature {
            r matches Err(AuthFailure::InvalidToken(m)) && m == e
        } else {
            r matches Err(AuthFailure::MalformedToken(m)) && m == e
        },
        Ok(c) => match baseline(c, opt_string_view(config.issuer), now) {
            Ok(_) => r matches Ok(d) && d == c,
            Err(f) => r == Err::<Claims, AuthFailure>(f),
        },
    }
}

/// The view of an optional owned string.
pub open spec fn opt_string_view(s: Option<String>) -> Option<Seq<char>> {
    match s {
        Some(v) => Some(v@),
        None => None,
    }
}

/// What [`extract_bearer_token`] gives, as text.
pub open spec fn extract_bearer_token_spec(header: AuthHeader) -> Result<Seq<char>, AuthFailure> {
    match header {
        AuthHeader::Missing => Err(AuthFailure::MissingMetadata),
        AuthHeader::NotText => Err(AuthFailure::NotText),
        AuthHeader::Text(v) => if is_prefix_of("Bearer "@, v@) {
            Ok(v@.subrange("Bearer "@.len() as int, v@.len() as int))
        } else {
            Err(AuthFailure::NotBearer)
        },
    }
}

/// The `authorization` value carrying `token`.
pub fn bearer_value(token: &str) -> (v: String)
    ensures
        v@ == "Bearer "@ + token@,
{
    concat("Bearer ", token)
}

/// Where an outbound call gets the token it attaches. Implemented by
/// whatever supplies tokens: a self-minting signer, a certificate-derived
/// identity, or anything else.
pub trait TokenSource: Send + Sync {
    /// The token to attach to the next call, or `None` to attach nothing.
    fn token(&self) -> Option<String>;
}

/// How a service's outbound calls obtain a token to attach, if any.
pub struct ClientAuthConfig {
    provider: Option<Arc<dyn TokenSource>>,
}

/// Attaches what its [`ClientAuthConfig`] provides, if anything, as
/// `authorization: Bearer <token>`.
pub struct ClientAuthInterceptor {
    provider: Option<Arc<dyn TokenSource>>,
}

impl ClientAuthConfig {
    /// Whether a token source is configured.
    pub closed spec fn has_provider(&self) -> bool {
        self.provider is Some
    }

    /// Attach nothing to outbound calls.
    pub fn trust() -> (c: Self)
        ensures
            !c.has_provider(),
    {
        ClientAuthConfig { provider: None }
    }

    /// Take tokens from `provider`; `None` attaches nothing, as
    /// [`ClientAuthConfig::trust`].
    pub fn from_provider(provider: Option<Arc<dyn TokenSource>>) -> (c: Self)
        ensures
            c.has_provider() == provider is Some,
    {
        ClientAuthConfig { provider }
    }

    /// The interceptor for a client built on this configuration.
    pub fn interceptor(&self) -> (i: ClientAuthInterceptor)
        ensures
            i.has_provider() == self.has_provider(),
    {
        ClientAuthInterceptor { provider: self.provider.clone() }
    }
}

/// Whether `c` may stand in gRPC ASCII metadata: a tab, or any character
/// from the space on other than DEL. A character beyond ASCII travels as
/// bytes of 128 and above, all of which are accepted.
pub open spec fn metadata_char(c: char) -> bool {
    c == '\t' || (c as int >= 32 && c as int != 127)
}

/// Whether `text` may travel as a gRPC ASCII metadata value.
pub open spec fn valid_metadata_text(text: Seq<char>) -> bool {
    forall|i: int| 0 <= i < text.len() ==> #[trigger] metadata_char(text[i])
}

/// Calls `str::parse::<tonic::metadata::MetadataValue<Ascii>>()` and tells
/// whether it succeeded. That parse is `http::HeaderValue::from_str`, which
/// accepts a string exactly when each of its bytes is a tab, or at least 32
/// and not 127; in characters, that is `valid_metadata_text`.
#[verifier::external_body]
fn is_metadata_value(text: &str) -> (ok: bool)
    ensures
        ok == valid_metadata_text(text@),
{
    text.parse::<tonic::metadata::MetadataValue<tonic::metadata::Ascii>>().is_ok()
}

/// A token that cannot travel as `authorization` metadata. The outbound
/// call fails with an internal error instead of going out without it.
#[derive(Debug)]
pub struct InvalidMetadata;

impl InvalidMetadata {
    /// The message the failed call carries.
    pub fn message(&self) -> (m: String)
        ensures
            m@ == "token is not valid metadata"@,
    {
        "token is not valid metadata".to_owned()
    }
}

/// The `authorization` value attached for what a token source returned:
/// nothing for no token, `Bearer ` and the token when that is valid
/// metadata, and a refusal otherwise.
pub fn attached(token: Option<String>) -> (v: Result<Option<String>, InvalidMetadata>)
    ensures
        token is None ==> v matches Ok(None),
        token matches Some(t) ==> if valid_metadata_text("Bearer "@ + t@) {
            v matches Ok(Some(b)) && b@ == "Bearer "@ + t@
        } else {
            v is Err
        },
{
    match token {
        Some(t) => {
            let value = bearer_value(t.as_str());
            if is_metadata_value(value.as_str()) {
                Ok(Some(value))
            } else {
                Err(InvalidMetadata)
            }
        },
        None => Ok(None),
    }
}

impl ClientAuthInterceptor {
    /// Whether a token source is configured.
    pub closed spec fn has_provider(&self) -> bool {
        self.provider is Some
    }

    /// The `authorization` value to attach to the next call: nothing
    /// without a token source; otherwise what [`attached`] makes of the
    /// token it returns.
    pub fn authorization(&self) -> (v: Result<Option<String>, InvalidMetadata>)
        ensures
            !self.has_provider() ==> v matches Ok(None),
            v matches Ok(Some(b)) ==> is_prefix_of("Bearer "@, b@) && valid_metadata_text(b@),
    {
        match &self.provider {
            Some(p) => {
                let v = attached(p.token());
                proof {
                    if v is Ok && v->Ok_0 is Some {
                        let b = v->Ok_0->Some_0;
                        assert(b@.subrange(0, "Bearer "@.len() as int) =~= "Bearer "@);
                    }
                }
                v
            },
            None => Ok(None),
        }
    }
}

/// An expired token is refused whatever its issuer, and a live token
/// from the required issuer (or with none required) is accepted.
pub proof fn law_expired_tokens_are_refused(claims: Claims, required_issuer: Option<Seq<char>>, now: i64)
    ensures
        claims.exp <= now ==> baseline(claims, required_issuer, now) == Err::<(), AuthFailure>(AuthFailure::Expired),
        claims.exp > now && (required_issuer is None || (claims.iss matches Some(i) && i@ == required_issuer->Some_0))
            ==> baseline(claims, required_issuer, now) is Ok,
{
}

/// A token minted for `ttl_secs` seconds passes the baseline checks at
/// its minting instant exactly when the TTL is positive.
pub proof fn law_minted_token_lives_for_its_ttl(now: i64, ttl_secs: i64, c: Claims)
    requires
        c.iat == now,
        c.exp == now + ttl_secs,
        c.iss is None,
    ensures
        baseline(c, None, now) is Ok <==> ttl_secs > 0,
{
}

/// What an outbound call attaches is exactly what the server side
/// extracts: the bearer value of a token carries that token.
pub proof fn law_bearer_round_trip(value: String, token: Seq<char>)
    requires
        value@ == "Bearer "@ + token,
    ensures
        extract_bearer_token_spec(AuthHeader::Text(value)) == Ok::<Seq<char>, AuthFailure>(token),
{
    let n = "Bearer "@.len() as int;
    assert(value@.subrange(0, n) =~= "Bearer "@);
    assert(value@.subrange(n, value@.len() as int) =~= token);
}

} // verus!
