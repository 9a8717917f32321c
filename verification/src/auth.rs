//! Authentication: Basic credentials, API keys, bearer-token extraction, and
//! a blacklist of revoked tokens.
use vstd::prelude::*;
use vstd::string::*;
use crate::csrf::secure_compare;
use crate::http::{JsonValue, MiddlewareAction, MiddlewareError, Request, Response, strip_ctl};
use crate::pathmatch::{matches_any, skip_match};
use crate::random::{base64_decode, base64_standard_decode};
use crate::strmap::{StrMap, first_value};
use crate::text::{
    chars_of, find_char, first_index_of, is_prefix, owned, str_starts_with, string_from_utf8, string_of_range,
    to_lowercase, unicode_lowercase, views,
};
use crate::time::unix_now_secs;

verus! {

// ============================================================================
// Errors
// ============================================================================

/// JWT authentication errors.
#[derive(Debug)]
pub enum JwtError {
    MissingToken,
    InvalidFormat,
    EncodingFailed(String),
    ValidationFailed(String),
    Expired,
}

impl JwtError {
    /// The error message.
    pub open spec fn spec_message(&self) -> Seq<char> {
        match self {
            JwtError::MissingToken => "Missing authorization token"@,
            JwtError::InvalidFormat => "Invalid token format"@,
            JwtError::EncodingFailed(e) => "Token encoding failed: "@ + e@,
            JwtError::ValidationFailed(e) => "Token validation failed: "@ + e@,
            JwtError::Expired => "Token has expired"@,
        }
    }

    /// The error message.
    pub fn to_string(&self) -> (res: String)
        ensures
            res@ == self.spec_message(),
    {
        match self {
            JwtError::MissingToken => String::from_str("Missing authorization token"),
            JwtError::InvalidFormat => String::from_str("Invalid token format"),
            JwtError::EncodingFailed(e) => {
                let mut s = String::from_str("Token encoding failed: ");
                s.append(e.as_str());
                s
            },
            JwtError::ValidationFailed(e) => {
                let mut s = String::from_str("Token validation failed: ");
                s.append(e.as_str());
                s
            },
            JwtError::Expired => String::from_str("Token has expired"),
        }
    }
}

/// What an authentication middleware decides before the handler.
pub enum AuthOutcome {
    /// The path is skipped: no authentication.
    Skipped,
    /// Authenticated: the user or client identifier for the request context.
    Authenticated(String),
    /// Answered at once with this response (a 401 challenge).
    Challenged(Response),
    /// Refused as unauthorized with this message.
    Unauthorized(String),
}

// ============================================================================
// Basic authentication
// ============================================================================

/// Decides whether a username and password are valid.
pub trait CredentialValidator {
    /// Which credentials are accepted.
    spec fn accepts(&self, username: Seq<char>, password: Seq<char>) -> bool;

    /// Whether the credentials are accepted.
    fn validate(&self, username: &str, password: &str) -> (res: bool)
        ensures
            res == self.accepts(username@, password@);
}

/// One fixed username and password, compared in constant time.
pub struct StaticCredentials {
    pub username: String,
    pub password: String,
}

impl CredentialValidator for StaticCredentials {
    open spec fn accepts(&self, username: Seq<char>, password: Seq<char>) -> bool {
        username == self.username@ && password == self.password@
    }

    fn validate(&self, username: &str, password: &str) -> (res: bool) {
        // both comparisons run, so that the time taken does not tell which failed
        let user_ok = secure_compare(username, self.username.as_str());
        let pass_ok = secure_compare(password, self.password.as_str());
        if user_ok {
            pass_ok
        } else {
            false
        }
    }
}

/// The username and password of a `Basic` authorization value: the Base64
/// after `Basic `, decoded as UTF-8, split at its first `:`.
pub open spec fn basic_credentials(header: Seq<char>, encoded_bytes: Seq<u8>) -> Option<(Seq<char>, Seq<char>)> {
    match base64_standard_decode(encoded_bytes) {
        None => None,
        Some(bytes) => if !vstd::utf8::valid_utf8(bytes) {
            None
        } else {
            let text = vstd::utf8::decode_utf8(bytes);
            match first_index_of(text, ':') {
                None => None,
                Some(i) => Some((text.subrange(0, i), text.subrange(i + 1, text.len() as int))),
            }
        },
    }
}

/// Basic authentication middleware.
pub struct BasicAuth<V> {
    pub realm: String,
    pub validator: V,
    pub skip_paths: Vec<String>,
    pub user_key: String,
}

impl BasicAuth<StaticCredentials> {
    /// Basic authentication against one username and password.
    pub fn new(username: &str, password: &str) -> (res: Self)
        ensures
            res.realm@ == "Restricted"@,
            res.validator.username@ == username@,
            res.validator.password@ == password@,
            res.skip_paths@.len() == 0,
            res.user_key@ == "basic_auth_user"@,
    {
        BasicAuth {
            realm: String::from_str("Restricted"),
            validator: StaticCredentials { username: owned(username), password: owned(password) },
            skip_paths: Vec::new(),
            user_key: String::from_str("basic_auth_user"),
        }
    }
}

impl<V: CredentialValidator> BasicAuth<V> {
    /// Whether the request's path is skipped.
    pub open spec fn skipped(&self, r: &Request) -> bool {
        exists|i: int| 0 <= i < self.skip_paths@.len() && skip_match(r.path@, #[trigger] self.skip_paths@[i]@)
    }

    /// The `WWW-Authenticate` challenge value.
    pub open spec fn challenge_value(&self) -> Seq<char> {
        "Basic realm=\""@ + self.realm@ + "\""@
    }

    /// Basic authentication with a validator of one's own.
    pub fn with_validator(validator: V) -> (res: Self)
        ensures
            res.realm@ == "Restricted"@,
            res.validator == validator,
            res.skip_paths@.len() == 0,
            res.user_key@ == "basic_auth_user"@,
    {
        BasicAuth {
            realm: String::from_str("Restricted"),
            validator,
            skip_paths: Vec::new(),
            user_key: String::from_str("basic_auth_user"),
        }
    }

    /// Set the realm name.
    pub fn realm(self, realm: &str) -> (res: Self)
        ensures
            res.realm@ == realm@,
            res.validator == self.validator,
            res.skip_paths == self.skip_paths,
            res.user_key == self.user_key,
    {
        let mut a = self;
        a.realm = owned(realm);
        a
    }

    /// Skip authentication under a path.
    pub fn skip_path(self, path: &str) -> (res: Self)
        ensures
            views(res.skip_paths@) == views(self.skip_paths@).push(path@),
            res.realm == self.realm,
            res.validator == self.validator,
            res.user_key == self.user_key,
    {
        let mut a = self;
        a.skip_paths.push(owned(path));
        assert(views(a.skip_paths@) =~= views(self.skip_paths@).push(path@));
        a
    }

    /// Set the key under which the username is stored.
    pub fn user_key(self, key: &str) -> (res: Self)
        ensures
            res.user_key@ == key@,
            res.realm == self.realm,
            res.validator == self.validator,
            res.skip_paths == self.skip_paths,
    {
        let mut a = self;
        a.user_key = owned(key);
        a
    }

    /// The credentials of a request's `Authorization: Basic ...` header.
    pub fn extract_credentials(&self, request: &Request) -> (res: Option<(String, String)>)
        requires
            request.wf(),
        ensures
            match request.header("authorization"@) {
                Some(h) => if is_prefix("Basic "@, h) {
                    match res {
                        Some((u, p)) => basic_credentials(h, encoded_of(h)) == Some((u@, p@)),
                        None => basic_credentials(h, encoded_of(h)) is None,
                    }
                } else {
                    res is None
                },
                None => res is None,
            },
    {
        let header = match request.header_value("authorization") {
            Some(h) => h,
            None => {
                return None;
            },
        };
        if !str_starts_with(header, "Basic ") {
            return None;
        }
        proof {
            reveal_strlit("Basic ");
        }
        let n = header.unicode_len();
        let encoded = header.substring_char(6, n);
        assert(encoded@ == header@.subrange(6, header@.len() as int));
        let bytes = encoded.as_bytes();
        assert(bytes@ == encoded_of(header@));
        let decoded = match base64_decode(bytes) {
            Some(d) => d,
            None => {
                return None;
            },
        };
        let text = match string_from_utf8(decoded) {
            Some(t) => t,
            None => {
                return None;
            },
        };
        let v = chars_of(text.as_str());
        match find_char(&v, ':') {
            Some(i) => {
                let n = v.len();
                assert(i < n);
                let user = string_of_range(&v, 0, i);
                let pass = string_of_range(&v, i + 1, n);
                Some((user, pass))
            },
            None => None,
        }
    }

    /// A 401 answer with the challenge header.
    pub fn challenge(&self, detail: &str) -> (res: Response)
        ensures
            res.wf(),
            res.status == 401,
            res.header_map() == map!["Content-Type"@ => "application/json"@]
                .insert("WWW-Authenticate"@, strip_ctl(self.challenge_value())),
            res.body@ == crate::http::error_json_of(detail@, 401),
    {
        let mut response = Response::error(401, detail);
        let mut v = String::from_str("Basic realm=\"");
        v.append(self.realm.as_str());
        v.append("\"");
        response.set_header("WWW-Authenticate", v.as_str());
        response
    }

    /// Before the handler: skipped paths pass; otherwise the credentials must be
    /// present and accepted, or the request is challenged.
    pub fn authenticate(&self, request: &Request) -> (res: AuthOutcome)
        requires
            request.wf(),
        ensures
            self.skipped(request) ==> res is Skipped,
            !self.skipped(request) ==> res is Authenticated || res is Challenged,
            res matches AuthOutcome::Authenticated(user) ==> request.header("authorization"@) is Some
                && is_prefix("Basic "@, request.header("authorization"@)->0)
                && basic_credentials(request.header("authorization"@)->0, encoded_of(request.header("authorization"@)->0)) is Some
                && (basic_credentials(request.header("authorization"@)->0, encoded_of(request.header("authorization"@)->0))->0).0 == user@
                && self.validator.accepts(user@,
                    (basic_credentials(request.header("authorization"@)->0, encoded_of(request.header("authorization"@)->0))->0).1),
            res matches AuthOutcome::Challenged(r) ==> r.wf() && r.status == 401
                && r.header_map()["WWW-Authenticate"@] == strip_ctl(self.challenge_value()),
            match self.authenticate_outcome(*request) {
                Some(u) => res matches AuthOutcome::Authenticated(x) && x@ == u,
                None => !(res is Authenticated),
            },
    {
        if matches_any(request.path.as_str(), &self.skip_paths) {
            return AuthOutcome::Skipped;
        }
        let (username, password) = match self.extract_credentials(request) {
            Some(c) => c,
            None => {
                let r = self.challenge("Invalid or missing Basic authentication");
                assert(r.header_map()["WWW-Authenticate"@] == strip_ctl(self.challenge_value()));
                return AuthOutcome::Challenged(r);
            },
        };
        if !self.validator.validate(username.as_str(), password.as_str()) {
            let r = self.challenge("Invalid credentials");
            assert(r.header_map()["WWW-Authenticate"@] == strip_ctl(self.challenge_value()));
            return AuthOutcome::Challenged(r);
        }
        proof {
            let h = request.header("authorization"@)->0;
            assert(basic_credentials(h, encoded_of(h)) == Some((username@, password@)));
        }
        AuthOutcome::Authenticated(username)
    }

    /// Before the handler: an authenticated user's name goes into the context
    /// under the user key; a challenge answers the request at once.
    pub fn before(&self, request: &mut Request) -> (res: Result<MiddlewareAction, MiddlewareError>)
        requires
            old(request).wf(),
        ensures
            final(request).wf(),
            match self.authenticate_outcome(*old(request)) {
                Some(user) => {
                    &&& res matches Ok(MiddlewareAction::Continue)
                    &&& final(request).context.to_map() == old(request).context.to_map().insert(self.user_key@, final(request).context.to_map()[self.user_key@])
                    &&& (final(request).context_value(self.user_key@) matches Some(JsonValue::Str(u)) && u@ == user)
                },
                None => if self.skipped(old(request)) {
                    (res matches Ok(MiddlewareAction::Continue)) && *final(request) == *old(request)
                } else {
                    (res matches Ok(MiddlewareAction::Stop(r)) && r.status == 401) && *final(request) == *old(request)
                },
            },
    {
        match self.authenticate(request) {
            AuthOutcome::Authenticated(user) => {
                request.set_context_internal(self.user_key.as_str(), JsonValue::Str(user));
                assert(request.context.to_map() =~= old(request).context.to_map().insert(self.user_key@, request.context.to_map()[self.user_key@]));
                Ok(MiddlewareAction::Continue)
            },
            AuthOutcome::Challenged(r) => Ok(MiddlewareAction::Stop(r)),
            AuthOutcome::Unauthorized(m) => Err(MiddlewareError { message: m, status: 401 }),
            AuthOutcome::Skipped => Ok(MiddlewareAction::Continue),
        }
    }

    /// The user a request authenticates as, when its path is not skipped and
    /// its credentials are present and accepted.
    pub open spec fn authenticate_outcome(&self, request: Request) -> Option<Seq<char>> {
        if self.skipped(&request) {
            None
        } else {
            match request.header("authorization"@) {
                Some(h) => if is_prefix("Basic "@, h) {
                    match basic_credentials(h, encoded_of(h)) {
                        Some(c) => if self.validator.accepts(c.0, c.1) { Some(c.0) } else { None },
                        None => None,
                    }
                } else {
                    None
                },
                None => None,
            }
        }
    }

    /// After the handler: any 401 carries the challenge header.
    pub fn after(&self, response: &mut Response)
        requires
            old(response).wf(),
        ensures
            final(response).wf(),
            old(response).status == 401 ==> final(response).header_map()
                == old(response).header_map().insert("WWW-Authenticate"@, strip_ctl(self.challenge_value())),
            old(response).status != 401 ==> final(response).header_map() == old(response).header_map(),
            final(response).status == old(response).status,
            final(response).body == old(response).body,
    {
        if response.status == 401 {
            let mut v = String::from_str("Basic realm=\"");
            v.append(self.realm.as_str());
            v.append("\"");
            response.set_header("WWW-Authenticate", v.as_str());
        }
    }

    /// Runs early, after logging.
    pub fn priority(&self) -> (res: i32)
        ensures
            res == -50,
    {
        -50
    }

    /// The middleware's name.
    pub fn name(&self) -> (res: &'static str)
        ensures
            res@ == "basic_auth"@,
    {
        "basic_auth"
    }
}

/// The bytes of the Base64 part of a `Basic ` authorization value.
pub open spec fn encoded_of(header: Seq<char>) -> Seq<u8> {
    vstd::utf8::encode_utf8(header.subrange(6, header.len() as int))
}

// ============================================================================
// API key authentication
// ============================================================================

/// Where the API key is read from.
pub enum ApiKeyLocation {
    Header(String),
    Query(String),
    Cookie(String),
}

impl ApiKeyLocation {
    /// The default: the `X-API-Key` header.
    pub fn default() -> (res: Self)
        ensures
            res matches ApiKeyLocation::Header(h) && h@ == "X-API-Key"@,
    {
        ApiKeyLocation::Header(String::from_str("X-API-Key"))
    }
}

/// Decides which client an API key belongs to.
pub trait ApiKeyValidator {
    /// The client a key belongs to, if any.
    spec fn client_of(&self, key: Seq<char>) -> Option<Seq<char>>;

    /// The client a key belongs to, if any.
    fn client_for(&self, key: &str) -> (res: Option<String>)
        ensures
            res matches Some(c) ==> self.client_of(key@) == Some(c@),
            res is None ==> self.client_of(key@) is None;
}

/// One fixed key, compared in constant time, for the client `default`.
pub struct StaticApiKey {
    pub key: String,
}

impl ApiKeyValidator for StaticApiKey {
    open spec fn client_of(&self, key: Seq<char>) -> Option<Seq<char>> {
        if key == self.key@ {
            Some("default"@)
        } else {
            None
        }
    }

    fn client_for(&self, key: &str) -> (res: Option<String>) {
        if secure_compare(key, self.key.as_str()) {
            Some(String::from_str("default"))
        } else {
            None
        }
    }
}

/// A table from keys to client identifiers.
pub struct KeyTable {
    pub keys: StrMap<String>,
}

impl ApiKeyValidator for KeyTable {
    open spec fn client_of(&self, key: Seq<char>) -> Option<Seq<char>> {
        match first_value(self.keys.entries@, key) {
            Some(c) => Some(c@),
            None => None,
        }
    }

    fn client_for(&self, key: &str) -> (res: Option<String>) {
        match self.keys.index_of(key) {
            Some(i) => {
                proof {
                    crate::strmap::lemma_first_value_at(self.keys.entries@, i as int);
                }
                Some(self.keys.entries[i].1.clone())
            },
            None => {
                assert(!(exists|i: int| 0 <= i < self.keys.entries@.len() && self.keys.entries@[i].0@ == key@));
                None
            },
        }
    }
}

/// API key authentication middleware.
pub struct ApiKeyAuth<V> {
    pub location: ApiKeyLocation,
    pub validator: V,
    pub skip_paths: Vec<String>,
    pub client_key: String,
}

impl ApiKeyAuth<StaticApiKey> {
    /// API key authentication against one key.
    pub fn new(api_key: &str) -> (res: Self)
        ensures
            res.location matches ApiKeyLocation::Header(h) && h@ == "X-API-Key"@,
            res.validator.key@ == api_key@,
            res.skip_paths@.len() == 0,
            res.client_key@ == "api_key_client"@,
    {
        ApiKeyAuth {
            location: ApiKeyLocation::default(),
            validator: StaticApiKey { key: owned(api_key) },
            skip_paths: Vec::new(),
            client_key: String::from_str("api_key_client"),
        }
    }
}

impl ApiKeyAuth<KeyTable> {
    /// API key authentication against a table of keys and client identifiers.
    pub fn from_keys(keys: StrMap<String>) -> (res: Self)
        ensures
            res.location matches ApiKeyLocation::Header(h) && h@ == "X-API-Key"@,
            res.validator.keys == keys,
            res.skip_paths@.len() == 0,
            res.client_key@ == "api_key_client"@,
    {
        ApiKeyAuth {
            location: ApiKeyLocation::default(),
            validator: KeyTable { keys },
            skip_paths: Vec::new(),
            client_key: String::from_str("api_key_client"),
        }
    }
}

impl<V: ApiKeyValidator> ApiKeyAuth<V> {
    /// Whether the request's path is skipped.
    pub open spec fn skipped(&self, r: &Request) -> bool {
        exists|i: int| 0 <= i < self.skip_paths@.len() && skip_match(r.path@, #[trigger] self.skip_paths@[i]@)
    }

    /// The key a request carries at the configured location (a header is looked
    /// up by its lowercased name).
    pub open spec fn spec_key(&self, r: &Request) -> Option<Seq<char>> {
        match self.location {
            ApiKeyLocation::Header(name) => r.header(unicode_lowercase(name@)),
            ApiKeyLocation::Query(name) => if r.query_params.to_map().dom().contains(name@) {
                Some(r.query_params.to_map()[name@]@)
            } else {
                None
            },
            ApiKeyLocation::Cookie(name) => r.cookie(name@),
        }
    }

    /// API key authentication with a validator of one's own.
    pub fn with_validator(validator: V) -> (res: Self)
        ensures
            res.location matches ApiKeyLocation::Header(h) && h@ == "X-API-Key"@,
            res.validator == validator,
            res.skip_paths@.len() == 0,
            res.client_key@ == "api_key_client"@,
    {
        ApiKeyAuth {
            location: ApiKeyLocation::default(),
            validator,
            skip_paths: Vec::new(),
            client_key: String::from_str("api_key_client"),
        }
    }

    /// Set where the key is read from.
    pub fn location(self, location: ApiKeyLocation) -> (res: Self)
        ensures
            res.location == location,
            res.validator == self.validator,
            res.skip_paths == self.skip_paths,
            res.client_key == self.client_key,
    {
        let mut a = self;
        a.location = location;
        a
    }

    /// Read the key from a header.
    pub fn header(self, name: &str) -> (res: Self)
        ensures
            res.location matches ApiKeyLocation::Header(h) && h@ == name@,
            res.validator == self.validator,
            res.skip_paths == self.skip_paths,
            res.client_key == self.client_key,
    {
        self.location(ApiKeyLocation::Header(owned(name)))
    }

    /// Read the key from a query parameter.
    pub fn query(self, name: &str) -> (res: Self)
        ensures
            res.location matches ApiKeyLocation::Query(q) && q@ == name@,
            res.validator == self.validator,
            res.skip_paths == self.skip_paths,
            res.client_key == self.client_key,
    {
        self.location(ApiKeyLocation::Query(owned(name)))
    }

    /// Skip authentication under a path.
    pub fn skip_path(self, path: &str) -> (res: Self)
        ensures
            views(res.skip_paths@) == views(self.skip_paths@).push(path@),
            res.location == self.location,
            res.validator == self.validator,
            res.client_key == self.client_key,
    {
        let mut a = self;
        a.skip_paths.push(owned(path));
        assert(views(a.skip_paths@) =~= views(self.skip_paths@).push(path@));
        a
    }

    /// Set the key under which the client identifier is stored.
    pub fn client_key(self, key: &str) -> (res: Self)
        ensures
            res.client_key@ == key@,
            res.location == self.location,
            res.validator == self.validator,
            res.skip_paths == self.skip_paths,
    {
        let mut a = self;
        a.client_key = owned(key);
        a
    }

    /// The key the request carries.
    pub fn extract_key(&self, request: &Request) -> (res: Option<String>)
        requires
            request.wf(),
        ensures
            res matches Some(k) ==> self.spec_key(request) == Some(k@),
            res is None ==> self.spec_key(request) is None,
    {
        match &self.location {
            ApiKeyLocation::Header(name) => {
                let key = to_lowercase(name.as_str());
                match request.header_value(key.as_str()) {
                    Some(v) => Some(owned(v)),
                    None => None,
                }
            },
            ApiKeyLocation::Query(name) => match request.query_params.get(name.as_str()) {
                Some(v) => Some(v.clone()),
                None => None,
            },
            ApiKeyLocation::Cookie(name) => request.get_cookie(name.as_str()),
        }
    }

    /// Before the handler: skipped paths pass; otherwise the key must be present
    /// and belong to a client.
    pub fn authenticate(&self, request: &Request) -> (res: AuthOutcome)
        requires
            request.wf(),
        ensures
            self.skipped(request) ==> res is Skipped,
            !self.skipped(request) ==> match self.spec_key(request) {
                None => res matches AuthOutcome::Unauthorized(m) && m@ == "Missing API key"@,
                Some(k) => match self.validator.client_of(k) {
                    None => res matches AuthOutcome::Unauthorized(m) && m@ == "Invalid API key"@,
                    Some(c) => res matches AuthOutcome::Authenticated(id) && id@ == c,
                },
            },
    {
        if matches_any(request.path.as_str(), &self.skip_paths) {
            return AuthOutcome::Skipped;
        }
        let key = match self.extract_key(request) {
            Some(k) => k,
            None => {
                return AuthOutcome::Unauthorized(String::from_str("Missing API key"));
            },
        };
        match self.validator.client_for(key.as_str()) {
            Some(client) => AuthOutcome::Authenticated(client),
            None => AuthOutcome::Unauthorized(String::from_str("Invalid API key")),
        }
    }

    /// Before the handler: the client a valid key belongs to goes into the
    /// context under the client key; a missing or unknown key is refused (401).
    pub fn before(&self, request: &mut Request) -> (res: Result<MiddlewareAction, MiddlewareError>)
        requires
            old(request).wf(),
        ensures
            final(request).wf(),
            self.skipped(old(request)) ==> (res matches Ok(MiddlewareAction::Continue)) && *final(request) == *old(request),
            !self.skipped(old(request)) ==> match self.spec_key(old(request)) {
                None => (res matches Err(e) && e.message@ == "Missing API key"@ && e.status == 401) && *final(request) == *old(request),
                Some(k) => match self.validator.client_of(k) {
                    None => (res matches Err(e) && e.message@ == "Invalid API key"@ && e.status == 401) && *final(request) == *old(request),
                    Some(c) => {
                        &&& res matches Ok(MiddlewareAction::Continue)
                        &&& final(request).context.to_map() == old(request).context.to_map().insert(self.client_key@, final(request).context.to_map()[self.client_key@])
                        &&& (final(request).context_value(self.client_key@) matches Some(JsonValue::Str(x)) && x@ == c)
                    },
                },
            },
    {
        match self.authenticate(request) {
            AuthOutcome::Authenticated(client) => {
                request.set_context_internal(self.client_key.as_str(), JsonValue::Str(client));
                assert(request.context.to_map() =~= old(request).context.to_map().insert(self.client_key@, request.context.to_map()[self.client_key@]));
                Ok(MiddlewareAction::Continue)
            },
            AuthOutcome::Challenged(r) => Ok(MiddlewareAction::Stop(r)),
            AuthOutcome::Unauthorized(m) => Err(MiddlewareError { message: m, status: 401 }),
            AuthOutcome::Skipped => Ok(MiddlewareAction::Continue),
        }
    }

    /// Runs early, after logging.
    pub fn priority(&self) -> (res: i32)
        ensures
            res == -50,
    {
        -50
    }

    /// The middleware's name.
    pub fn name(&self) -> (res: &'static str)
        ensures
            res@ == "api_key_auth"@,
    {
        "api_key_auth"
    }
}

// ============================================================================
// JWT claims and configuration
// ============================================================================

/// The claims of a JWT.
pub struct JwtClaims {
    /// Subject (user id)
    pub sub: String,
    /// Expiry (Unix seconds)
    pub exp: u64,
    /// Issued at (Unix seconds)
    pub iat: u64,
    pub iss: Option<String>,
    pub aud: Option<String>,
    /// Custom claims
    pub custom: StrMap<JsonValue>,
}

impl JwtClaims {
    /// Claims for a subject issued at `now`, expiring `expires_in` later (the
    /// sum wraps around past `u64::MAX`).
    pub fn new_at(subject: &str, expires_in: crate::time::Duration, now: u64) -> (res: Self)
        ensures
            res.sub@ == subject@,
            res.iat == now,
            res.exp == now.wrapping_add(expires_in.secs),
            res.iss is None,
            res.aud is None,
            res.custom.wf(),
            res.custom.seq().len() == 0,
    {
        JwtClaims {
            sub: owned(subject),
            exp: now.wrapping_add(expires_in.as_secs()),
            iat: now,
            iss: None,
            aud: None,
            custom: StrMap::new(),
        }
    }

    /// Claims for a subject issued now, expiring `expires_in` later.
    pub fn new(subject: &str, expires_in: crate::time::Duration) -> (res: Self)
        ensures
            res.sub@ == subject@,
            res.exp == res.iat.wrapping_add(expires_in.secs),
            res.iss is None,
            res.aud is None,
            res.custom.wf(),
            res.custom.seq().len() == 0,
    {
        Self::new_at(subject, expires_in, unix_now_secs())
    }

    /// Set the issuer.
    pub fn with_issuer(self, issuer: &str) -> (res: Self)
        ensures
            res.iss matches Some(i) && i@ == issuer@,
            res == (JwtClaims { iss: res.iss, ..self }),
    {
        let mut c = self;
        c.iss = Some(owned(issuer));
        c
    }

    /// Set the audience.
    pub fn with_audience(self, audience: &str) -> (res: Self)
        ensures
            res.aud matches Some(a) && a@ == audience@,
            res == (JwtClaims { aud: res.aud, ..self }),
    {
        let mut c = self;
        c.aud = Some(owned(audience));
        c
    }

    /// Set a custom claim.
    pub fn with_claim(self, key: &str, value: JsonValue) -> (res: Self)
        requires
            self.custom.wf(),
        ensures
            res.custom.wf(),
            res.custom.to_map() == self.custom.to_map().insert(key@, value),
            res.sub == self.sub,
            res.exp == self.exp,
            res.iat == self.iat,
            res.iss == self.iss,
            res.aud == self.aud,
    {
        let mut c = self;
        c.custom.insert(owned(key), value);
        c
    }

    /// Whether the claims have expired at `now`.
    pub fn is_expired_at(&self, now: u64) -> (res: bool)
        ensures
            res == (self.exp < now),
    {
        self.exp < now
    }

    /// Whether the claims have expired.
    pub fn is_expired(&self) -> (res: bool) {
        self.is_expired_at(unix_now_secs())
    }
}

/// JWT settings: the shared secret, the expected issuer and audience, and the
/// leeway allowed on expiry.  (The signing algorithm is a type of the JWT
/// implementation, which this library does not include.)
pub struct JwtConfig {
    pub secret: Vec<u8>,
    pub issuer: Option<String>,
    pub audience: Option<String>,
    /// Seconds of leeway on expiry
    pub leeway: u64,
}

impl JwtConfig {
    /// A configuration with a secret, no issuer or audience, and 60 s of leeway.
    pub fn new(secret: &[u8]) -> (res: Self)
        ensures
            res.secret@ == secret@,
            res.issuer is None,
            res.audience is None,
            res.leeway == 60,
    {
        JwtConfig { secret: vstd::slice::slice_to_vec(secret), issuer: None, audience: None, leeway: 60 }
    }

    /// Set the expected issuer.
    pub fn issuer(self, issuer: &str) -> (res: Self)
        ensures
            res.issuer matches Some(i) && i@ == issuer@,
            res == (JwtConfig { issuer: res.issuer, ..self }),
    {
        let mut c = self;
        c.issuer = Some(owned(issuer));
        c
    }

    /// Set the expected audience.
    pub fn audience(self, audience: &str) -> (res: Self)
        ensures
            res.audience matches Some(a) && a@ == audience@,
            res == (JwtConfig { audience: res.audience, ..self }),
    {
        let mut c = self;
        c.audience = Some(owned(audience));
        c
    }

    /// Set the leeway on expiry.
    pub fn leeway(self, seconds: u64) -> (res: Self)
        ensures
            res == (JwtConfig { leeway: seconds, ..self }),
    {
        let mut c = self;
        c.leeway = seconds;
        c
    }
}

// ============================================================================
// Bearer tokens
// ============================================================================

/// Where bearer tokens are read from.  Decoding a token and checking its
/// signature need a JWT implementation, which this library does not include:
/// the token is handed to the caller as it was found.
pub struct JwtAuth {
    pub header_name: String,
    pub token_prefix: String,
    pub query_param: Option<String>,
    pub cookie_name: Option<String>,
    pub skip_paths: Vec<String>,
    pub claims_key: String,
}

impl JwtAuth {
    /// Whether the request's path is skipped.
    pub open spec fn skipped(&self, r: &Request) -> bool {
        exists|i: int| 0 <= i < self.skip_paths@.len() && skip_match(r.path@, #[trigger] self.skip_paths@[i]@)
    }

    /// The token a request carries: after the prefix in the header (looked up by
    /// its lowercased name), else the query parameter, else the cookie.
    pub open spec fn spec_token(&self, r: &Request) -> Option<Seq<char>> {
        let from_header = match r.header(unicode_lowercase(self.header_name@)) {
            Some(h) => if is_prefix(self.token_prefix@, h) {
                Some(h.subrange(self.token_prefix@.len() as int, h.len() as int))
            } else {
                None
            },
            None => None,
        };
        if from_header is Some {
            from_header
        } else {
            let from_query = match self.query_param {
                Some(q) => if r.query_params.to_map().dom().contains(q@) {
                    Some(r.query_params.to_map()[q@]@)
                } else {
                    None
                },
                None => None,
            };
            if from_query is Some {
                from_query
            } else {
                match self.cookie_name {
                    Some(c) => r.cookie(c@),
                    None => None,
                }
            }
        }
    }

    /// Bearer tokens in `Authorization`, no query parameter or cookie, nothing
    /// skipped, claims under `jwt_claims`.
    pub fn new() -> (res: Self)
        ensures
            res.header_name@ == "Authorization"@,
            res.token_prefix@ == "Bearer "@,
            res.query_param is None,
            res.cookie_name is None,
            res.skip_paths@.len() == 0,
            res.claims_key@ == "jwt_claims"@,
    {
        JwtAuth {
            header_name: String::from_str("Authorization"),
            token_prefix: String::from_str("Bearer "),
            query_param: None,
            cookie_name: None,
            skip_paths: Vec::new(),
            claims_key: String::from_str("jwt_claims"),
        }
    }

    /// Set the header name.
    pub fn header_name(self, name: &str) -> (res: Self)
        ensures
            res.header_name@ == name@,
            res == (JwtAuth { header_name: res.header_name, ..self }),
    {
        let mut a = self;
        a.header_name = owned(name);
        a
    }

    /// Set the token prefix (e.g., "Bearer ").
    pub fn token_prefix(self, prefix: &str) -> (res: Self)
        ensures
            res.token_prefix@ == prefix@,
            res == (JwtAuth { token_prefix: res.token_prefix, ..self }),
    {
        let mut a = self;
        a.token_prefix = owned(prefix);
        a
    }

    /// Also read tokens from a query parameter.
    pub fn query_param(self, param: &str) -> (res: Self)
        ensures
            res.query_param matches Some(q) && q@ == param@,
            res == (JwtAuth { query_param: res.query_param, ..self }),
    {
        let mut a = self;
        a.query_param = Some(owned(param));
        a
    }

    /// Also read tokens from a cookie.
    pub fn cookie(self, name: &str) -> (res: Self)
        ensures
            res.cookie_name matches Some(c) && c@ == name@,
            res == (JwtAuth { cookie_name: res.cookie_name, ..self }),
    {
        let mut a = self;
        a.cookie_name = Some(owned(name));
        a
    }

    /// Skip authentication under a path.
    pub fn skip_path(self, path: &str) -> (res: Self)
        ensures
            views(res.skip_paths@) == views(self.skip_paths@).push(path@),
            res == (JwtAuth { skip_paths: res.skip_paths, ..self }),
    {
        let mut a = self;
        a.skip_paths.push(owned(path));
        assert(views(a.skip_paths@) =~= views(self.skip_paths@).push(path@));
        a
    }

    /// Set the key under which the claims are stored.
    pub fn claims_key(self, key: &str) -> (res: Self)
        ensures
            res.claims_key@ == key@,
            res == (JwtAuth { claims_key: res.claims_key, ..self }),
    {
        let mut a = self;
        a.claims_key = owned(key);
        a
    }

    /// The token the request carries.
    pub fn extract_token(&self, request: &Request) -> (res: Option<String>)
        requires
            request.wf(),
        ensures
            res matches Some(t) ==> self.spec_token(request) == Some(t@),
            res is None ==> self.spec_token(request) is None,
    {
        let key = to_lowercase(self.header_name.as_str());
        match request.header_value(key.as_str()) {
            Some(h) => {
                if str_starts_with(h, self.token_prefix.as_str()) {
                    let n = h.unicode_len();
                    let p = self.token_prefix.unicode_len();
                    return Some(owned(h.substring_char(p, n)));
                }
            },
            None => {},
        }
        match &self.query_param {
            Some(param) => match request.query_params.get(param.as_str()) {
                Some(v) => {
                    return Some(v.clone());
                },
                None => {},
            },
            None => {},
        }
        match &self.cookie_name {
            Some(name) => request.get_cookie(name.as_str()),
            None => None,
        }
    }

    /// Before the handler: skipped paths pass; otherwise the request must carry
    /// a token, handed on for decoding.
    pub fn authenticate(&self, request: &Request) -> (res: AuthOutcome)
        requires
            request.wf(),
        ensures
            self.skipped(request) ==> res is Skipped,
            !self.skipped(request) ==> match self.spec_token(request) {
                None => res matches AuthOutcome::Unauthorized(m) && m@ == "Missing authentication token"@,
                Some(t) => res matches AuthOutcome::Authenticated(x) && x@ == t,
            },
    {
        if matches_any(request.path.as_str(), &self.skip_paths) {
            return AuthOutcome::Skipped;
        }
        match self.extract_token(request) {
            Some(t) => AuthOutcome::Authenticated(t),
            None => AuthOutcome::Unauthorized(String::from_str("Missing authentication token")),
        }
    }

    /// Runs early, after logging.
    pub fn priority(&self) -> (res: i32)
        ensures
            res == -50,
    {
        -50
    }

    /// The middleware's name.
    pub fn name(&self) -> (res: &'static str)
        ensures
            res@ == "jwt_auth"@,
    {
        "jwt_auth"
    }
}

// ============================================================================
// Token blacklist
// ============================================================================

/// Revoked tokens, each with the time (Unix seconds) it expires anyway.
pub struct TokenBlacklist {
    pub tokens: StrMap<u64>,
}

impl TokenBlacklist {
    pub open spec fn wf(&self) -> bool {
        self.tokens.wf()
    }

    /// An empty blacklist.
    pub fn new() -> (res: Self)
        ensures
            res.wf(),
            res.tokens.to_map() == Map::<Seq<char>, u64>::empty(),
    {
        TokenBlacklist { tokens: StrMap::new() }
    }

    /// Revoke a token until `expires_at`.
    pub fn add(&mut self, token: &str, expires_at: u64)
        requires
            old(self).wf(),
        ensures
            final(self).wf(),
            final(self).tokens.to_map() == old(self).tokens.to_map().insert(token@, expires_at),
    {
        self.tokens.insert(owned(token), expires_at);
    }

    /// Whether a token is revoked.
    pub fn is_blacklisted(&self, token: &str) -> (res: bool)
        ensures
            res == self.tokens.to_map().dom().contains(token@),
    {
        self.tokens.contains_key(token)
    }

    /// Forget the tokens that have expired by `now`: those kept expire after it.
    pub fn cleanup_at(&mut self, now: u64)
        requires
            old(self).wf(),
        ensures
            final(self).wf(),
            forall|k: Seq<char>| #[trigger] final(self).tokens.to_map().dom().contains(k)
                <==> (old(self).tokens.to_map().dom().contains(k) && old(self).tokens.to_map()[k] > now),
            forall|k: Seq<char>| #[trigger] final(self).tokens.to_map().dom().contains(k)
                ==> final(self).tokens.to_map()[k] == old(self).tokens.to_map()[k],
    {
        let ghost old_map = self.tokens.to_map();
        let mut kept: StrMap<u64> = StrMap::new();
        let mut i: usize = 0;
        while i < self.tokens.entries.len()
            invariant
                self.tokens.wf(),
                old_map == self.tokens.to_map(),
                kept.wf(),
                i <= self.tokens.entries@.len(),
                forall|k: Seq<char>| #[trigger] kept.to_map().dom().contains(k)
                    <==> (exists|j: int| 0 <= j < i && self.tokens.entries@[j].0@ == k && self.tokens.entries@[j].1 > now),
                forall|j: int| 0 <= j < i && self.tokens.entries@[j].1 > now
                    ==> #[trigger] kept.to_map()[self.tokens.entries@[j].0@] == self.tokens.entries@[j].1,
            decreases self.tokens.entries.len() - i,
        {
            let exp = self.tokens.entries[i].1;
            if exp > now {
                let ghost before = kept.to_map();
                kept.insert(self.tokens.entries[i].0.clone(), exp);
                proof {
                    assert forall|j: int| 0 <= j < i && self.tokens.entries@[j].1 > now
                        implies #[trigger] kept.to_map()[self.tokens.entries@[j].0@] == self.tokens.entries@[j].1 by {
                        assert(self.tokens.entries@[j].0@ != self.tokens.entries@[i as int].0@);
                    }
                }
            }
            i = i + 1;
        }
        proof {
            assert forall|k: Seq<char>| #[trigger] kept.to_map().dom().contains(k)
                <==> (old_map.dom().contains(k) && old_map[k] > now) by {
                if old_map.dom().contains(k) {
                    let j = choose|j: int| 0 <= j < self.tokens.entries@.len() && self.tokens.entries@[j].0@ == k;
                    crate::strmap::lemma_map_of_at(self.tokens.entries@, j);
                }
                if kept.to_map().dom().contains(k) {
                    let j = choose|j: int| 0 <= j < self.tokens.entries@.len() && self.tokens.entries@[j].0@ == k
                        && self.tokens.entries@[j].1 > now;
                    crate::strmap::lemma_map_of_at(self.tokens.entries@, j);
                }
            }
            assert forall|k: Seq<char>| #[trigger] kept.to_map().dom().contains(k)
                implies kept.to_map()[k] == old_map[k] by {
                let j = choose|j: int| 0 <= j < self.tokens.entries@.len() && self.tokens.entries@[j].0@ == k
                    && self.tokens.entries@[j].1 > now;
                crate::strmap::lemma_map_of_at(self.tokens.entries@, j);
            }
        }
        self.tokens = kept;
    }

    /// Forget the tokens that have expired by now.
    pub fn cleanup(&mut self)
        requires
            old(self).wf(),
        ensures
            final(self).wf(),
            forall|k: Seq<char>| #[trigger] final(self).tokens.to_map().dom().contains(k)
                ==> old(self).tokens.to_map().dom().contains(k) && final(self).tokens.to_map()[k] == old(self).tokens.to_map()[k],
    {
        let now = unix_now_secs();
        self.cleanup_at(now);
    }

    /// The default blacklist (empty).
    pub fn default() -> (res: Self)
        ensures
            res.wf(),
            res.tokens.to_map() == Map::<Seq<char>, u64>::empty(),
    {
        Self::new()
    }
}

/// A revoked token stays revoked until a cleanup finds it expired.
pub proof fn lemma_revoked_until_expired(before: TokenBlacklist, after: TokenBlacklist, token: Seq<char>, expires_at: u64, now: u64)
    requires
        before.wf(),
        after.wf(),
        forall|k: Seq<char>| #[trigger] after.tokens.to_map().dom().contains(k)
            <==> (before.tokens.to_map().dom().contains(k) && before.tokens.to_map()[k] > now),
        before.tokens.to_map().dom().contains(token),
        before.tokens.to_map()[token] == expires_at,
    ensures
        after.tokens.to_map().dom().contains(token) <==> expires_at > now,
{
}

} // verus!
