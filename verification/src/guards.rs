//! Access guards: role, permission and authentication checks on what earlier
//! middleware left in the request context, composed with AND, OR and NOT, and a
//! middleware that runs them in priority order.
use vstd::prelude::*;
use crate::http::{JsonValue, MiddlewareAction, MiddlewareError, Request};
use crate::strmap::{StrSet, seq_insert_all};
use crate::text::{append_u64, dec, join, join_strings, owned, str_eq, views};

verus! {

// ============================================================================
// Errors
// ============================================================================

/// Why a guard refused a request.
pub enum GuardError {
    Forbidden(String),
    Unauthorized(String),
    Custom(String, u16),
}

/// A refusal, with its message as characters.
pub enum Denial {
    Forbidden(Seq<char>),
    Unauthorized(Seq<char>),
    Custom(Seq<char>, u16),
}

impl View for GuardError {
    type V = Denial;

    open spec fn view(&self) -> Denial {
        match self {
            GuardError::Forbidden(m) => Denial::Forbidden(m@),
            GuardError::Unauthorized(m) => Denial::Unauthorized(m@),
            GuardError::Custom(m, code) => Denial::Custom(m@, *code),
        }
    }
}

impl GuardError {
    /// The middleware error a refusal is answered with: 403 for forbidden, 401
    /// for unauthorized, the refusal's own status otherwise.
    pub fn into_middleware_error(self) -> (res: MiddlewareError)
        ensures
            match self@ {
                Denial::Forbidden(m) => res.message@ == m && res.status == 403,
                Denial::Unauthorized(m) => res.message@ == m && res.status == 401,
                Denial::Custom(m, code) => res.message@ == m && res.status == code,
            },
    {
        match self {
            GuardError::Forbidden(m) => MiddlewareError { message: m, status: 403 },
            GuardError::Unauthorized(m) => MiddlewareError { message: m, status: 401 },
            GuardError::Custom(m, code) => MiddlewareError { message: m, status: code },
        }
    }
}

/// The outcome of a guard check.
pub type GuardResult = Result<(), GuardError>;

/// The refusal in a guard outcome, if any.
pub open spec fn denial_of(r: GuardResult) -> Option<Denial> {
    match r {
        Ok(()) => None,
        Err(e) => Some(e@),
    }
}

/// The text of a refusal.
pub open spec fn denial_text(d: Denial) -> Seq<char> {
    match d {
        Denial::Forbidden(m) => "Forbidden: "@ + m,
        Denial::Unauthorized(m) => "Unauthorized: "@ + m,
        Denial::Custom(m, code) => "Guard error ("@ + dec(code as nat) + "): "@ + m,
    }
}

impl GuardError {
    /// The error as text.
    pub fn to_string(&self) -> (res: String)
        ensures
            res@ == denial_text(self@),
    {
        match self {
            GuardError::Forbidden(m) => {
                let mut s = String::from_str("Forbidden: ");
                s.append(m.as_str());
                s
            },
            GuardError::Unauthorized(m) => {
                let mut s = String::from_str("Unauthorized: ");
                s.append(m.as_str());
                s
            },
            GuardError::Custom(m, code) => {
                let mut s = String::from_str("Guard error (");
                append_u64(&mut s, *code as u64);
                s.append("): ");
                s.append(m.as_str());
                s
            },
        }
    }
}

// ============================================================================
// Debug rendering of the names a guard asks for
// ============================================================================

/// The name of `<str as Debug>::fmt`: the string in double quotes, with
/// escapes.
pub uninterp spec fn debug_quoted(s: Seq<char>) -> Seq<char>;

/// A printable ASCII character that the debug form of a string keeps as it is.
pub open spec fn is_plain_char(c: char) -> bool {
    ' ' <= c <= '~' && c != '"' && c != '\\' && c != '\''
}

/// Renders `s` as `format!("{:?}", s)` does.
#[verifier::external_body]
fn debug_str(s: &str) -> (res: String)
    ensures
        res@ == debug_quoted(s@),
        (forall|i: int| 0 <= i < s@.len() ==> is_plain_char(#[trigger] s@[i])) ==> res@ == seq!['"'] + s@ + seq!['"'],
{
    format!("{:?}", s)
}

/// The debug forms of a list of strings.
pub open spec fn debug_items(items: Seq<Seq<char>>) -> Seq<Seq<char>> {
    items.map_values(|x: Seq<char>| debug_quoted(x))
}

/// How `Debug` shows a set of strings: `{"a", "b"}`.
pub open spec fn debug_set(items: Seq<Seq<char>>) -> Seq<char> {
    "{"@ + join(debug_items(items), ", "@) + "}"@
}

/// How `Debug` shows a list of strings: `["a", "b"]`.
pub open spec fn debug_list(items: Seq<Seq<char>>) -> Seq<char> {
    "["@ + join(debug_items(items), ", "@) + "]"@
}

/// The debug forms of `items`, joined with `, `.
fn debug_join(items: &Vec<String>) -> (res: String)
    ensures
        res@ == join(debug_items(views(items@)), ", "@),
{
    let mut quoted: Vec<String> = Vec::new();
    let mut i: usize = 0;
    while i < items.len()
        invariant
            i <= items@.len(),
            views(quoted@) == debug_items(views(items@)).subrange(0, i as int),
        decreases items.len() - i,
    {
        let q = debug_str(items[i].as_str());
        let ghost before = quoted@;
        quoted.push(q);
        assert(quoted@ == before.push(q));
        assert(views(quoted@) =~= views(before).push(q@));
        assert(views(items@)[i as int] == items@[i as int]@);
        assert(debug_items(views(items@))[i as int] == debug_quoted(items@[i as int]@));
        i = i + 1;
        assert(views(quoted@) =~= debug_items(views(items@)).subrange(0, i as int));
    }
    assert(debug_items(views(items@)).subrange(0, items@.len() as int) =~= debug_items(views(items@)));
    join_strings(&quoted, ", ")
}

// ============================================================================
// What the context says of the user
// ============================================================================

/// The strings among a list of JSON values, in order.
pub open spec fn string_items(items: Seq<JsonValue>) -> Seq<Seq<char>>
    decreases items.len(),
{
    if items.len() == 0 {
        Seq::empty()
    } else {
        let rest = string_items(items.drop_last());
        match items.last() {
            JsonValue::Str(s) => rest.push(s@),
            _ => rest,
        }
    }
}

/// The strings in member `key` of the context's user object, which is a list
/// of values (strings among them) or, when `single` allows, one string.
pub open spec fn user_strings(req: Request, user_key: Seq<char>, key: Seq<char>, single: bool) -> Seq<Seq<char>> {
    match req.context_value(user_key) {
        Some(u) => match u.field(key) {
            Some(JsonValue::Array(a)) => string_items(a@),
            Some(JsonValue::Str(s)) => if single { seq![s@] } else { Seq::empty() },
            _ => Seq::empty(),
        },
        None => Seq::empty(),
    }
}

/// The strings among `items`.
fn collect_strings(items: &Vec<JsonValue>) -> (res: Vec<String>)
    ensures
        views(res@) == string_items(items@),
{
    let mut out: Vec<String> = Vec::new();
    let mut i: usize = 0;
    while i < items.len()
        invariant
            i <= items@.len(),
            views(out@) == string_items(items@.subrange(0, i as int)),
        decreases items.len() - i,
    {
        assert(items@.subrange(0, i as int + 1).drop_last() =~= items@.subrange(0, i as int));
        match &items[i] {
            JsonValue::Str(s) => {
                out.push(s.clone());
                assert(views(out@) =~= string_items(items@.subrange(0, i as int)).push(s@));
            },
            _ => {},
        }
        i = i + 1;
    }
    assert(items@.subrange(0, items@.len() as int) =~= items@);
    out
}

/// The strings the context's user object holds under `key`.
fn read_user_strings(request: &Request, user_key: &str, key: &str, single: bool) -> (res: Vec<String>)
    requires
        request.wf(),
    ensures
        views(res@) == user_strings(*request, user_key@, key@, single),
{
    match request.context.get(user_key) {
        Some(u) => match u.get(key) {
            Some(JsonValue::Array(a)) => collect_strings(a),
            Some(JsonValue::Str(s)) => {
                if single {
                    let v = vec![s.clone()];
                    assert(views(v@) =~= seq![s@]);
                    v
                } else {
                    let v: Vec<String> = Vec::new();
                    assert(views(v@) =~= Seq::<Seq<char>>::empty());
                    v
                }
            },
            _ => {
                let v: Vec<String> = Vec::new();
                assert(views(v@) =~= Seq::<Seq<char>>::empty());
                v
            },
        },
        None => {
            let v: Vec<String> = Vec::new();
            assert(views(v@) =~= Seq::<Seq<char>>::empty());
            v
        },
    }
}

/// Whether `have` holds every one of `wanted` (`all`) or at least one (not `all`).
pub open spec fn holds_wanted(wanted: Seq<Seq<char>>, have: Seq<Seq<char>>, all: bool) -> bool {
    if all {
        forall|i: int| 0 <= i < wanted.len() ==> have.contains(#[trigger] wanted[i])
    } else {
        exists|i: int| 0 <= i < wanted.len() && have.contains(#[trigger] wanted[i])
    }
}

/// Whether `s` is among `v`.
fn contains_str(v: &Vec<String>, s: &str) -> (res: bool)
    ensures
        res == views(v@).contains(s@),
{
    let mut i: usize = 0;
    while i < v.len()
        invariant
            i <= v@.len(),
            forall|j: int| 0 <= j < i ==> v@[j]@ != s@,
        decreases v.len() - i,
    {
        if str_eq(v[i].as_str(), s) {
            assert(views(v@)[i as int] == s@);
            return true;
        }
        i = i + 1;
    }
    proof {
        if views(v@).contains(s@) {
            let j = choose|j: int| 0 <= j < views(v@).len() && views(v@)[j] == s@;
            assert(v@[j]@ == s@);
        }
    }
    false
}

/// Whether `have` holds all (or any) of `wanted`.
fn check_wanted(wanted: &Vec<String>, have: &Vec<String>, all: bool) -> (res: bool)
    ensures
        res == holds_wanted(views(wanted@), views(have@), all),
{
    let ghost w = views(wanted@);
    let mut i: usize = 0;
    while i < wanted.len()
        invariant
            i <= wanted@.len(),
            w == views(wanted@),
            forall|j: int| 0 <= j < i ==> views(have@).contains(#[trigger] w[j]) == all,
        decreases wanted.len() - i,
    {
        if contains_str(have, wanted[i].as_str()) != all {
            assert(views(have@).contains(w[i as int]) != all);
            return !all;
        }
        i = i + 1;
    }
    all
}

// ============================================================================
// Built-in guards
// ============================================================================

/// Lets a request through when the user in the context has one of the allowed
/// roles (or all of them, with `require_all`).
pub struct RoleGuard {
    pub allowed_roles: StrSet,
    pub require_all: bool,
    pub user_key: String,
    pub role_key: String,
}

/// Lets a request through when the user in the context has all the required
/// permissions (or one of them, with `require_all` off).
pub struct PermissionGuard {
    pub required_permissions: Vec<String>,
    pub require_all: bool,
    pub user_key: String,
    pub permission_key: String,
}

/// Lets a request through when the context holds a user.
pub struct AuthenticatedGuard {
    pub user_key: String,
}

/// The refusal of a request that carries no user.
pub open spec fn unauthenticated() -> Denial {
    Denial::Unauthorized("User must be authenticated"@)
}

/// What a role guard says of a request.
pub open spec fn role_outcome(g: RoleGuard, req: Request) -> Option<Denial> {
    let roles = user_strings(req, g.user_key@, g.role_key@, true);
    if roles.len() == 0 {
        Some(unauthenticated())
    } else if holds_wanted(g.allowed_roles.members(), roles, g.require_all) {
        None
    } else {
        Some(Denial::Forbidden("User does not have required role(s): "@ + debug_set(g.allowed_roles.members())))
    }
}

/// What a permission guard says of a request.
pub open spec fn permission_outcome(g: PermissionGuard, req: Request) -> Option<Denial> {
    let perms = user_strings(req, g.user_key@, g.permission_key@, false);
    if perms.len() == 0 {
        Some(unauthenticated())
    } else if holds_wanted(views(g.required_permissions@), perms, g.require_all) {
        None
    } else {
        Some(Denial::Forbidden(
            "User does not have required permission(s): "@ + debug_list(views(g.required_permissions@)),
        ))
    }
}

/// What an authentication guard says of a request.
pub open spec fn authenticated_outcome(g: AuthenticatedGuard, req: Request) -> Option<Denial> {
    if req.context.to_map().dom().contains(g.user_key@) {
        None
    } else {
        Some(Denial::Unauthorized("Authentication required"@))
    }
}

impl RoleGuard {
    /// A guard that asks for any of `allowed_roles` under `user.roles`.
    pub fn new(allowed_roles: Vec<&str>) -> (res: Self)
        ensures
            res.allowed_roles.wf(),
            res.allowed_roles.members() == seq_insert_all(Seq::empty(), crate::text::ref_views(allowed_roles@)),
            !res.require_all,
            res.user_key@ == "user"@,
            res.role_key@ == "roles"@,
    {
        let mut set = StrSet::new();
        let roles = crate::security::to_strings(&allowed_roles);
        crate::cors::insert_each(&mut set, &roles);
        RoleGuard { allowed_roles: set, require_all: false, user_key: String::from_str("user"), role_key: String::from_str("roles") }
    }

    /// Require all roles.
    pub fn require_all(self) -> (res: Self)
        ensures
            res.require_all,
            res.allowed_roles == self.allowed_roles,
            res.user_key == self.user_key,
            res.role_key == self.role_key,
    {
        let mut g = self;
        g.require_all = true;
        g
    }

    /// Set the context key of the user.
    pub fn user_key(self, key: &str) -> (res: Self)
        ensures
            res.user_key@ == key@,
            res.allowed_roles == self.allowed_roles,
            res.require_all == self.require_all,
            res.role_key == self.role_key,
    {
        let mut g = self;
        g.user_key = owned(key);
        g
    }

    /// Set the key of the roles within the user.
    pub fn role_key(self, key: &str) -> (res: Self)
        ensures
            res.role_key@ == key@,
            res.allowed_roles == self.allowed_roles,
            res.require_all == self.require_all,
            res.user_key == self.user_key,
    {
        let mut g = self;
        g.role_key = owned(key);
        g
    }

    /// The roles of the user in the context.
    pub fn get_user_roles(&self, request: &Request) -> (res: Vec<String>)
        requires
            request.wf(),
        ensures
            views(res@) == user_strings(*request, self.user_key@, self.role_key@, true),
    {
        read_user_strings(request, self.user_key.as_str(), self.role_key.as_str(), true)
    }

    /// Check a request.
    pub fn check_request(&self, request: &Request) -> (res: GuardResult)
        requires
            request.wf(),
        ensures
            denial_of(res) == role_outcome(*self, *request),
    {
        let roles = self.get_user_roles(request);
        if roles.len() == 0 {
            return Err(GuardError::Unauthorized(String::from_str("User must be authenticated")));
        }
        if check_wanted(&self.allowed_roles.items, &roles, self.require_all) {
            Ok(())
        } else {
            let mut m = String::from_str("User does not have required role(s): ");
            m.append("{");
            let inner = debug_join(&self.allowed_roles.items);
            m.append(inner.as_str());
            m.append("}");
            assert(m@ =~= "User does not have required role(s): "@ + debug_set(self.allowed_roles.members()));
            Err(GuardError::Forbidden(m))
        }
    }
}

impl PermissionGuard {
    /// A guard that asks for all of `required_permissions` under `user.permissions`.
    pub fn new(required_permissions: Vec<&str>) -> (res: Self)
        ensures
            views(res.required_permissions@) == crate::text::ref_views(required_permissions@),
            res.require_all,
            res.user_key@ == "user"@,
            res.permission_key@ == "permissions"@,
    {
        PermissionGuard {
            required_permissions: crate::security::to_strings(&required_permissions),
            require_all: true,
            user_key: String::from_str("user"),
            permission_key: String::from_str("permissions"),
        }
    }

    /// Require any one permission.
    pub fn require_any(self) -> (res: Self)
        ensures
            !res.require_all,
            res.required_permissions == self.required_permissions,
            res.user_key == self.user_key,
            res.permission_key == self.permission_key,
    {
        let mut g = self;
        g.require_all = false;
        g
    }

    /// Set the context key of the user.
    pub fn user_key(self, key: &str) -> (res: Self)
        ensures
            res.user_key@ == key@,
            res.required_permissions == self.required_permissions,
            res.require_all == self.require_all,
            res.permission_key == self.permission_key,
    {
        let mut g = self;
        g.user_key = owned(key);
        g
    }

    /// Set the key of the permissions within the user.
    pub fn permission_key(self, key: &str) -> (res: Self)
        ensures
            res.permission_key@ == key@,
            res.required_permissions == self.required_permissions,
            res.require_all == self.require_all,
            res.user_key == self.user_key,
    {
        let mut g = self;
        g.permission_key = owned(key);
        g
    }

    /// The permissions of the user in the context.
    pub fn get_user_permissions(&self, request: &Request) -> (res: Vec<String>)
        requires
            request.wf(),
        ensures
            views(res@) == user_strings(*request, self.user_key@, self.permission_key@, false),
    {
        read_user_strings(request, self.user_key.as_str(), self.permission_key.as_str(), false)
    }

    /// Check a request.
    pub fn check_request(&self, request: &Request) -> (res: GuardResult)
        requires
            request.wf(),
        ensures
            denial_of(res) == permission_outcome(*self, *request),
    {
        let perms = self.get_user_permissions(request);
        if perms.len() == 0 {
            return Err(GuardError::Unauthorized(String::from_str("User must be authenticated")));
        }
        if check_wanted(&self.required_permissions, &perms, self.require_all) {
            Ok(())
        } else {
            let mut m = String::from_str("User does not have required permission(s): ");
            m.append("[");
            let inner = debug_join(&self.required_permissions);
            m.append(inner.as_str());
            m.append("]");
            assert(m@ =~= "User does not have required permission(s): "@ + debug_list(views(self.required_permissions@)));
            Err(GuardError::Forbidden(m))
        }
    }
}

impl AuthenticatedGuard {
    /// A guard on the context key `user`.
    pub fn new() -> (res: Self)
        ensures
            res.user_key@ == "user"@,
    {
        AuthenticatedGuard { user_key: String::from_str("user") }
    }

    /// Set the context key of the user.
    pub fn user_key(self, key: &str) -> (res: Self)
        ensures
            res.user_key@ == key@,
    {
        AuthenticatedGuard { user_key: owned(key) }
    }

    /// Check a request.
    pub fn check_request(&self, request: &Request) -> (res: GuardResult)
        requires
            request.wf(),
        ensures
            denial_of(res) == authenticated_outcome(*self, *request),
    {
        if request.context.contains_key(self.user_key.as_str()) {
            Ok(())
        } else {
            Err(GuardError::Unauthorized(String::from_str("Authentication required")))
        }
    }
}

impl Default for AuthenticatedGuard {
    fn default() -> (res: Self)
        ensures
            res.user_key@ == "user"@,
    {
        Self::new()
    }
}

// ============================================================================
// Composed guards
// ============================================================================

/// Any of the guards the library provides, composed ones included.
pub enum GuardKind {
    Role(RoleGuard),
    Permission(PermissionGuard),
    Authenticated(AuthenticatedGuard),
    And(AndGuard),
    Or(OrGuard),
    Not(NotGuard),
}

/// Passes when every guard passes; the first refusal is the answer.
pub struct AndGuard {
    pub guards: Vec<GuardKind>,
}

/// Passes when some guard passes; with none passing, the last refusal is the
/// answer.
pub struct OrGuard {
    pub guards: Vec<GuardKind>,
}

/// Passes exactly when the inner guard refuses.
pub struct NotGuard {
    pub guard: Box<GuardKind>,
}

/// What a guard says of a request: `None` lets it through.
pub open spec fn outcome(g: GuardKind, req: Request) -> Option<Denial>
    decreases g,
{
    match g {
        GuardKind::Role(r) => role_outcome(r, req),
        GuardKind::Permission(p) => permission_outcome(p, req),
        GuardKind::Authenticated(a) => authenticated_outcome(a, req),
        GuardKind::And(a) => all_outcome(a.guards@, req),
        GuardKind::Or(o) => any_outcome(o.guards@, req),
        GuardKind::Not(n) => match outcome(*n.guard, req) {
            None => Some(Denial::Forbidden("Guard check inverted"@)),
            Some(_) => None,
        },
    }
}

/// The first refusal among `gs`, checked in order.
pub open spec fn all_outcome(gs: Seq<GuardKind>, req: Request) -> Option<Denial>
    decreases gs,
{
    if gs.len() == 0 {
        None
    } else {
        match outcome(gs[0], req) {
            Some(d) => Some(d),
            None => all_outcome(gs.subrange(1, gs.len() as int), req),
        }
    }
}

/// Nothing when some guard of `gs` passes; else the last refusal, or
/// "No guards passed" for no guards.
pub open spec fn any_outcome(gs: Seq<GuardKind>, req: Request) -> Option<Denial>
    decreases gs,
{
    if gs.len() == 0 {
        Some(Denial::Forbidden("No guards passed"@))
    } else {
        match outcome(gs[0], req) {
            None => None,
            Some(d) => if gs.len() == 1 {
                Some(d)
            } else {
                any_outcome(gs.subrange(1, gs.len() as int), req)
            },
        }
    }
}

/// Check a request against a guard.
pub fn check_kind(g: &GuardKind, request: &Request) -> (res: GuardResult)
    requires
        request.wf(),
    ensures
        denial_of(res) == outcome(*g, *request),
    decreases g,
{
    match g {
        GuardKind::Role(r) => r.check_request(request),
        GuardKind::Permission(p) => p.check_request(request),
        GuardKind::Authenticated(a) => a.check_request(request),
        GuardKind::And(a) => check_all(&a.guards, request),
        GuardKind::Or(o) => check_any(&o.guards, request),
        GuardKind::Not(n) => match check_kind(&n.guard, request) {
            Ok(()) => Err(GuardError::Forbidden(String::from_str("Guard check inverted"))),
            Err(_) => Ok(()),
        },
    }
}

/// Check a request against every guard in turn, stopping at the first refusal.
pub fn check_all(gs: &Vec<GuardKind>, request: &Request) -> (res: GuardResult)
    requires
        request.wf(),
    ensures
        denial_of(res) == all_outcome(gs@, *request),
    decreases gs@,
{
    let mut i: usize = 0;
    assert(gs@.subrange(0, gs@.len() as int) =~= gs@);
    while i < gs.len()
        invariant
            i <= gs@.len(),
            request.wf(),
            all_outcome(gs@, *request) == all_outcome(gs@.subrange(i as int, gs@.len() as int), *request),
        decreases gs.len() - i,
    {
        let ghost rest = gs@.subrange(i as int, gs@.len() as int);
        assert(rest[0] == gs@[i as int]);
        assert(rest.subrange(1, rest.len() as int) =~= gs@.subrange(i as int + 1, gs@.len() as int));
        let r = check_kind(&gs[i], request);
        if r.is_err() {
            return r;
        }
        i = i + 1;
    }
    Ok(())
}

/// Check a request against the guards in turn, stopping at the first that
/// passes.
pub fn check_any(gs: &Vec<GuardKind>, request: &Request) -> (res: GuardResult)
    requires
        request.wf(),
    ensures
        denial_of(res) == any_outcome(gs@, *request),
    decreases gs@,
{
    if gs.len() == 0 {
        return Err(GuardError::Forbidden(String::from_str("No guards passed")));
    }
    let mut i: usize = 0;
    assert(gs@.subrange(0, gs@.len() as int) =~= gs@);
    while i < gs.len()
        invariant
            i < gs@.len(),
            request.wf(),
            any_outcome(gs@, *request) == any_outcome(gs@.subrange(i as int, gs@.len() as int), *request),
        decreases gs.len() - i,
    {
        let ghost rest = gs@.subrange(i as int, gs@.len() as int);
        assert(rest[0] == gs@[i as int]);
        assert(rest.subrange(1, rest.len() as int) =~= gs@.subrange(i as int + 1, gs@.len() as int));
        let r = check_kind(&gs[i], request);
        match r {
            Ok(()) => return Ok(()),
            Err(e) => {
                if i + 1 == gs.len() {
                    return Err(e);
                }
            },
        }
        i = i + 1;
    }
    Err(GuardError::Forbidden(String::from_str("No guards passed")))
}

impl AndGuard {
    pub fn new(guards: Vec<GuardKind>) -> (res: Self)
        ensures
            res.guards == guards,
    {
        AndGuard { guards }
    }
}

impl OrGuard {
    pub fn new(guards: Vec<GuardKind>) -> (res: Self)
        ensures
            res.guards == guards,
    {
        OrGuard { guards }
    }
}

impl NotGuard {
    pub fn new(guard: GuardKind) -> (res: Self)
        ensures
            *res.guard == guard,
    {
        NotGuard { guard: Box::new(guard) }
    }
}

// ============================================================================
// The guard interface
// ============================================================================

/// A check that a request must pass.
pub trait Guard {
    /// Whether `res` is an answer this guard may give to `request`.
    spec fn admits(&self, request: Request, res: GuardResult) -> bool;

    /// What the guard needs of itself before it can check anything.
    spec fn ready(&self) -> bool;

    /// The guard's priority: lower runs first.
    spec fn priority_of(&self) -> i32;

    /// The guard's name.
    spec fn name_of(&self) -> Seq<char>;

    /// Check a request.
    fn check(&self, request: &Request) -> (res: GuardResult)
        requires
            self.ready(),
            request.wf(),
        ensures
            self.admits(*request, res),
    ;

    /// The guard's priority: lower runs first.
    fn priority(&self) -> (res: i32)
        ensures
            res == self.priority_of(),
    ;

    /// The guard's name.
    fn name(&self) -> (res: &str)
        ensures
            res@ == self.name_of(),
    ;

    /// Whether the guard runs for a path (every built-in guard does).
    fn should_run(&self, path: &str) -> (res: bool)
        ensures
            res,
    ;
}

/// The priority of a built-in guard.
pub open spec fn kind_priority(g: GuardKind) -> i32 {
    match g {
        GuardKind::Role(_) => -30i32,
        GuardKind::Permission(_) => -30i32,
        GuardKind::Authenticated(_) => -40i32,
        _ => 0i32,
    }
}

/// The name of a built-in guard.
pub open spec fn kind_name(g: GuardKind) -> Seq<char> {
    match g {
        GuardKind::Role(_) => "role_guard"@,
        GuardKind::Permission(_) => "permission_guard"@,
        GuardKind::Authenticated(_) => "authenticated_guard"@,
        GuardKind::And(_) => "and_guard"@,
        GuardKind::Or(_) => "or_guard"@,
        GuardKind::Not(_) => "not_guard"@,
    }
}

impl Guard for GuardKind {
    open spec fn admits(&self, request: Request, res: GuardResult) -> bool {
        denial_of(res) == outcome(*self, request)
    }

    open spec fn ready(&self) -> bool {
        true
    }

    open spec fn priority_of(&self) -> i32 {
        kind_priority(*self)
    }

    open spec fn name_of(&self) -> Seq<char> {
        kind_name(*self)
    }

    fn check(&self, request: &Request) -> (res: GuardResult) {
        check_kind(self, request)
    }

    fn priority(&self) -> (res: i32) {
        match self {
            GuardKind::Role(_) => -30,
            GuardKind::Permission(_) => -30,
            GuardKind::Authenticated(_) => -40,
            _ => 0,
        }
    }

    fn name(&self) -> (res: &str) {
        match self {
            GuardKind::Role(_) => "role_guard",
            GuardKind::Permission(_) => "permission_guard",
            GuardKind::Authenticated(_) => "authenticated_guard",
            GuardKind::And(_) => "and_guard",
            GuardKind::Or(_) => "or_guard",
            GuardKind::Not(_) => "not_guard",
        }
    }

    fn should_run(&self, path: &str) -> (res: bool) {
        true
    }
}

impl Guard for RoleGuard {
    open spec fn admits(&self, request: Request, res: GuardResult) -> bool {
        denial_of(res) == role_outcome(*self, request)
    }

    open spec fn ready(&self) -> bool {
        true
    }

    open spec fn priority_of(&self) -> i32 {
        -30i32
    }

    open spec fn name_of(&self) -> Seq<char> {
        "role_guard"@
    }

    fn check(&self, request: &Request) -> (res: GuardResult) {
        self.check_request(request)
    }

    fn priority(&self) -> (res: i32) {
        -30
    }

    fn name(&self) -> (res: &str) {
        "role_guard"
    }

    fn should_run(&self, path: &str) -> (res: bool) {
        true
    }
}

impl Guard for PermissionGuard {
    open spec fn admits(&self, request: Request, res: GuardResult) -> bool {
        denial_of(res) == permission_outcome(*self, request)
    }

    open spec fn ready(&self) -> bool {
        true
    }

    open spec fn priority_of(&self) -> i32 {
        -30i32
    }

    open spec fn name_of(&self) -> Seq<char> {
        "permission_guard"@
    }

    fn check(&self, request: &Request) -> (res: GuardResult) {
        self.check_request(request)
    }

    fn priority(&self) -> (res: i32) {
        -30
    }

    fn name(&self) -> (res: &str) {
        "permission_guard"
    }

    fn should_run(&self, path: &str) -> (res: bool) {
        true
    }
}

impl Guard for AuthenticatedGuard {
    open spec fn admits(&self, request: Request, res: GuardResult) -> bool {
        denial_of(res) == authenticated_outcome(*self, request)
    }

    open spec fn ready(&self) -> bool {
        true
    }

    open spec fn priority_of(&self) -> i32 {
        -40i32
    }

    open spec fn name_of(&self) -> Seq<char> {
        "authenticated_guard"@
    }

    fn check(&self, request: &Request) -> (res: GuardResult) {
        self.check_request(request)
    }

    fn priority(&self) -> (res: i32) {
        -40
    }

    fn name(&self) -> (res: &str) {
        "authenticated_guard"
    }

    fn should_run(&self, path: &str) -> (res: bool) {
        true
    }
}

impl Guard for AndGuard {
    open spec fn admits(&self, request: Request, res: GuardResult) -> bool {
        denial_of(res) == all_outcome(self.guards@, request)
    }

    open spec fn ready(&self) -> bool {
        true
    }

    open spec fn priority_of(&self) -> i32 {
        0
    }

    open spec fn name_of(&self) -> Seq<char> {
        "and_guard"@
    }

    fn check(&self, request: &Request) -> (res: GuardResult) {
        check_all(&self.guards, request)
    }

    fn priority(&self) -> (res: i32) {
        0
    }

    fn name(&self) -> (res: &str) {
        "and_guard"
    }

    fn should_run(&self, path: &str) -> (res: bool) {
        true
    }
}

impl Guard for OrGuard {
    open spec fn admits(&self, request: Request, res: GuardResult) -> bool {
        denial_of(res) == any_outcome(self.guards@, request)
    }

    open spec fn ready(&self) -> bool {
        true
    }

    open spec fn priority_of(&self) -> i32 {
        0
    }

    open spec fn name_of(&self) -> Seq<char> {
        "or_guard"@
    }

    fn check(&self, request: &Request) -> (res: GuardResult) {
        check_any(&self.guards, request)
    }

    fn priority(&self) -> (res: i32) {
        0
    }

    fn name(&self) -> (res: &str) {
        "or_guard"
    }

    fn should_run(&self, path: &str) -> (res: bool) {
        true
    }
}

impl Guard for NotGuard {
    open spec fn admits(&self, request: Request, res: GuardResult) -> bool {
        denial_of(res) == outcome(GuardKind::Not(*self), request)
    }

    open spec fn ready(&self) -> bool {
        true
    }

    open spec fn priority_of(&self) -> i32 {
        0
    }

    open spec fn name_of(&self) -> Seq<char> {
        "not_guard"@
    }

    fn check(&self, request: &Request) -> (res: GuardResult) {
        match check_kind(&self.guard, request) {
            Ok(()) => Err(GuardError::Forbidden(String::from_str("Guard check inverted"))),
            Err(_) => Ok(()),
        }
    }

    fn priority(&self) -> (res: i32) {
        0
    }

    fn name(&self) -> (res: &str) {
        "not_guard"
    }

    fn should_run(&self, path: &str) -> (res: bool) {
        true
    }
}

/// A guard whose check is a function of the request.
pub struct CustomGuard<F: Fn(&Request) -> GuardResult> {
    pub check_fn: F,
    pub name: String,
    pub priority: i32,
}

impl<F: Fn(&Request) -> GuardResult> CustomGuard<F> {
    /// A guard named `name` with priority 0.
    pub fn new(name: &str, check_fn: F) -> (res: Self)
        ensures
            res.check_fn == check_fn,
            res.name@ == name@,
            res.priority == 0,
    {
        CustomGuard { check_fn, name: owned(name), priority: 0 }
    }

    /// Set the priority.
    pub fn priority(self, priority: i32) -> (res: Self)
        ensures
            res.check_fn == self.check_fn,
            res.name == self.name,
            res.priority == priority,
    {
        let mut g = self;
        g.priority = priority;
        g
    }
}

impl<F: Fn(&Request) -> GuardResult> Guard for CustomGuard<F> {
    open spec fn admits(&self, request: Request, res: GuardResult) -> bool {
        self.check_fn.ensures((&request,), res)
    }

    open spec fn ready(&self) -> bool {
        forall|r: &Request| #[trigger] self.check_fn.requires((r,))
    }

    open spec fn priority_of(&self) -> i32 {
        self.priority
    }

    open spec fn name_of(&self) -> Seq<char> {
        self.name@
    }

    fn check(&self, request: &Request) -> (res: GuardResult) {
        (self.check_fn)(request)
    }

    fn priority(&self) -> (res: i32) {
        self.priority
    }

    fn name(&self) -> (res: &str) {
        self.name.as_str()
    }

    fn should_run(&self, path: &str) -> (res: bool) {
        true
    }
}

// ============================================================================
// Guards middleware
// ============================================================================

/// Runs guards, lowest priority first, on every request outside the skipped paths.
pub struct GuardsMiddleware {
    pub guards: Vec<GuardKind>,
    pub skip_paths: Vec<String>,
}

/// The guards are in order of priority.
pub open spec fn by_priority(gs: Seq<GuardKind>) -> bool {
    forall|i: int, j: int| 0 <= i < j < gs.len() ==> kind_priority(gs[i]) <= kind_priority(gs[j])
}

/// Where a guard of priority `p` goes in a list ordered by priority: after
/// every guard of priority `p` or lower.
pub open spec fn slot_for(gs: Seq<GuardKind>, p: i32) -> int
    decreases gs.len(),
{
    if gs.len() == 0 || kind_priority(gs[0]) > p {
        0
    } else {
        1 + slot_for(gs.drop_first(), p)
    }
}

/// What the middleware answers a request: it goes on when no guard is
/// registered, when its path is skipped, or when every guard passes.
pub open spec fn guards_verdict(m: GuardsMiddleware, req: Request) -> Option<Denial> {
    if m.guards@.len() == 0 {
        None
    } else if exists|i: int| 0 <= i < m.skip_paths@.len() && crate::pathmatch::skip_match(req.path@, #[trigger] m.skip_paths@[i]@) {
        None
    } else {
        all_outcome(m.guards@, req)
    }
}

impl GuardsMiddleware {
    pub open spec fn wf(&self) -> bool {
        by_priority(self.guards@)
    }

    /// No guards, no skipped paths.
    pub fn new() -> (res: Self)
        ensures
            res.wf(),
            res.guards@.len() == 0,
            res.skip_paths@.len() == 0,
    {
        GuardsMiddleware { guards: Vec::new(), skip_paths: Vec::new() }
    }

    /// Add a guard after every guard of the same or lower priority, so that
    /// the guards stay in order of priority and, within one priority, in order
    /// of registration.
    pub fn add_guard(&mut self, guard: GuardKind)
        requires
            old(self).wf(),
        ensures
            final(self).wf(),
            final(self).guards@ == old(self).guards@.insert(slot_for(old(self).guards@, kind_priority(guard)), guard),
            final(self).skip_paths == old(self).skip_paths,
    {
        let p = guard.priority();
        let ghost gs = self.guards@;
        let mut k: usize = 0;
        assert(gs.subrange(0, gs.len() as int) =~= gs);
        while k < self.guards.len() && self.guards[k].priority() <= p
            invariant
                gs == self.guards@,
                k <= gs.len(),
                forall|j: int| 0 <= j < k ==> kind_priority(#[trigger] gs[j]) <= p,
                slot_for(gs, p) == k + slot_for(gs.subrange(k as int, gs.len() as int), p),
            decreases self.guards.len() - k,
        {
            let ghost rest = gs.subrange(k as int, gs.len() as int);
            assert(rest.drop_first() =~= gs.subrange(k as int + 1, gs.len() as int));
            k = k + 1;
        }
        proof {
            let rest = gs.subrange(k as int, gs.len() as int);
            if k < gs.len() {
                assert(rest[0] == gs[k as int]);
            }
            assert(slot_for(rest, p) == 0);
        }
        self.guards.insert(k, guard);
        proof {
            let ng = self.guards@;
            assert forall|i: int, j: int| 0 <= i < j < ng.len() implies kind_priority(ng[i]) <= kind_priority(ng[j]) by {
                if j == k {
                    assert(ng[i] == gs[i]);
                } else if i == k {
                    assert(ng[j] == gs[j - 1]);
                    assert(kind_priority(gs[k as int]) > p);
                    if j - 1 > k {
                        assert(kind_priority(gs[k as int]) <= kind_priority(gs[j - 1]));
                    }
                } else {
                    let a = if i < k { i } else { i - 1 };
                    let b = if j < k { j } else { j - 1 };
                    assert(ng[i] == gs[a]);
                    assert(ng[j] == gs[b]);
                }
            }
        }
    }

    /// Skip guard checks for paths under `path`.
    pub fn skip_path(self, path: &str) -> (res: Self)
        ensures
            res.guards == self.guards,
            res.skip_paths@.len() == self.skip_paths@.len() + 1,
            res.skip_paths@.drop_last() == self.skip_paths@,
            res.skip_paths@.last()@ == path@,
    {
        let mut m = self;
        m.skip_paths.push(owned(path));
        assert(m.skip_paths@.drop_last() =~= self.skip_paths@);
        m
    }

    /// Whether any guard is registered.
    pub fn has_guards(&self) -> (res: bool)
        ensures
            res == (self.guards@.len() > 0),
    {
        self.guards.len() > 0
    }

    /// Run the guards on a request.
    pub fn before(&self, request: &mut Request) -> (res: Result<MiddlewareAction, GuardError>)
        requires
            old(request).wf(),
        ensures
            *final(request) == *old(request),
            match guards_verdict(*self, *old(request)) {
                None => res matches Ok(MiddlewareAction::Continue),
                Some(d) => res matches Err(e) && e@ == d,
            },
    {
        if self.guards.len() == 0 {
            return Ok(MiddlewareAction::Continue);
        }
        if crate::pathmatch::matches_any(request.path.as_str(), &self.skip_paths) {
            return Ok(MiddlewareAction::Continue);
        }
        match check_all(&self.guards, request) {
            Ok(()) => Ok(MiddlewareAction::Continue),
            Err(e) => Err(e),
        }
    }

    /// Runs after authentication.
    pub fn priority(&self) -> (res: i32)
        ensures
            res == -25,
    {
        -25
    }

    /// The middleware's name.
    pub fn name(&self) -> (res: &'static str)
        ensures
            res@ == "guards"@,
    {
        "guards"
    }
}

impl Default for GuardsMiddleware {
    fn default() -> (res: Self)
        ensures
            res.wf(),
            res.guards@.len() == 0,
            res.skip_paths@.len() == 0,
    {
        Self::new()
    }
}

// ============================================================================
// Laws of composition
// ============================================================================

/// An AND of guards lets a request through exactly when each of its guards does.
pub proof fn lemma_and_passes_iff_all_pass(gs: Seq<GuardKind>, req: Request)
    ensures
        all_outcome(gs, req) is None <==> forall|i: int| 0 <= i < gs.len() ==> (#[trigger] outcome(gs[i], req)) is None,
    decreases gs.len(),
{
    if gs.len() > 0 {
        let rest = gs.subrange(1, gs.len() as int);
        lemma_and_passes_iff_all_pass(rest, req);
        if outcome(gs[0], req) is None {
            assert forall|i: int| 0 < i < gs.len() implies #[trigger] gs[i] == rest[i - 1] by {}
            if forall|i: int| 0 <= i < rest.len() ==> (#[trigger] outcome(rest[i], req)) is None {
                assert forall|i: int| 0 <= i < gs.len() implies (#[trigger] outcome(gs[i], req)) is None by {
                    if i > 0 {
                        assert(gs[i] == rest[i - 1]);
                    }
                }
            } else {
                let j = choose|j: int| 0 <= j < rest.len() && !((#[trigger] outcome(rest[j], req)) is None);
                assert(gs[j + 1] == rest[j]);
            }
        }
    }
}

/// An OR of guards lets a request through exactly when one of its guards does.
pub proof fn lemma_or_passes_iff_one_passes(gs: Seq<GuardKind>, req: Request)
    ensures
        any_outcome(gs, req) is None <==> exists|i: int| 0 <= i < gs.len() && (#[trigger] outcome(gs[i], req)) is None,
    decreases gs.len(),
{
    if gs.len() > 0 {
        let rest = gs.subrange(1, gs.len() as int);
        lemma_or_passes_iff_one_passes(rest, req);
        if outcome(gs[0], req) is None {
            assert(outcome(gs[0], req) is None);
        } else if gs.len() == 1 {
            assert forall|i: int| 0 <= i < gs.len() implies !((#[trigger] outcome(gs[i], req)) is None) by {
                assert(i == 0);
            }
        } else {
            if exists|i: int| 0 <= i < rest.len() && (#[trigger] outcome(rest[i], req)) is None {
                let j = choose|j: int| 0 <= j < rest.len() && (#[trigger] outcome(rest[j], req)) is None;
                assert(gs[j + 1] == rest[j]);
            }
            if exists|i: int| 0 <= i < gs.len() && (#[trigger] outcome(gs[i], req)) is None {
                let j = choose|j: int| 0 <= j < gs.len() && (#[trigger] outcome(gs[j], req)) is None;
                assert(j > 0);
                assert(rest[j - 1] == gs[j]);
            }
        }
    }
}

/// A NOT guard lets a request through exactly when its inner guard refuses it.
pub proof fn lemma_not_inverts(g: NotGuard, req: Request)
    ensures
        outcome(GuardKind::Not(g), req) is None <==> outcome(*g.guard, req) is Some,
{
}

} // verus!
