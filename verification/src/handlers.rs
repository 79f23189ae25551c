use vstd::prelude::*;
use vstd::string::StringExecFns;

use crate::errors::{message_spec, status_spec, AuthError};
use crate::password::{bcrypt_check, bcrypt_wf, CredentialStore};
use crate::store::{contains_email, contains_id, User, UserStore, UserView};
use crate::token::{
    issued_claims, lemma_issue_verify_roundtrip, token_chars, verify_model, Claims, ClaimsView,
    TokenCodec, TOKEN_TTL_SECONDS,
};

verus! {

// ---------------------------------------------------------------------------
// Request and response shapes.
// ---------------------------------------------------------------------------

pub struct RegisterRequest {
    pub email: String,
    pub password: String,
    pub full_name: String,
    pub role: Option<String>,
}

pub struct RegisterRequestView {
    pub email: Seq<char>,
    pub password: Seq<char>,
    pub full_name: Seq<char>,
    pub role: Option<Seq<char>>,
}

impl View for RegisterRequest {
    type V = RegisterRequestView;

    open spec fn view(&self) -> RegisterRequestView {
        RegisterRequestView {
            email: self.email@,
            password: self.password@,
            full_name: self.full_name@,
            role: match self.role {
                Some(r) => Some(r@),
                None => None,
            },
        }
    }
}

pub struct LoginRequest {
    pub email: String,
    pub password: String,
}

pub struct LoginRequestView {
    pub email: Seq<char>,
    pub password: Seq<char>,
}

impl View for LoginRequest {
    type V = LoginRequestView;

    open spec fn view(&self) -> LoginRequestView {
        LoginRequestView { email: self.email@, password: self.password@ }
    }
}

/// The public image of a user: everything but the password hash, which no
/// response ever carries.
#[derive(Debug)]
pub struct UserResponse {
    pub id: String,
    pub email: String,
    pub full_name: String,
    pub role: String,
}

pub struct UserResponseView {
    pub id: Seq<char>,
    pub email: Seq<char>,
    pub full_name: Seq<char>,
    pub role: Seq<char>,
}

impl View for UserResponse {
    type V = UserResponseView;

    open spec fn view(&self) -> UserResponseView {
        UserResponseView {
            id: self.id@,
            email: self.email@,
            full_name: self.full_name@,
            role: self.role@,
        }
    }
}

/// What a successful registration or login returns: a token and the public
/// view of the user.
#[derive(Debug)]
pub struct AuthResponse {
    pub token: String,
    pub user: UserResponse,
}

/// The public view of a stored user.
pub open spec fn user_response_view(u: UserView) -> UserResponseView {
    UserResponseView { id: u.id, email: u.email, full_name: u.full_name, role: u.role }
}

// ---------------------------------------------------------------------------
// Validation.
// ---------------------------------------------------------------------------

pub open spec fn role_valid(r: Seq<char>) -> bool {
    r == "student"@ || r == "instructor"@
}

/// The role a registration asks for: the submitted one, or student when omitted.
pub open spec fn chosen_role(req: RegisterRequestView) -> Seq<char> {
    match req.role {
        Some(r) => r,
        None => "student"@,
    }
}

pub open spec fn register_valid(req: RegisterRequestView) -> bool {
    role_valid(chosen_role(req)) && req.email.len() > 0 && req.full_name.len() > 0
}

/// The stored image of a successful registration: the request's fields, the
/// produced password hash, and the creation time.
pub open spec fn new_user_view(
    req: RegisterRequestView,
    id: Seq<char>,
    hash: Seq<char>,
    now: usize,
) -> UserView {
    UserView {
        id,
        email: req.email,
        password_hash: hash,
        full_name: req.full_name,
        role: chosen_role(req),
        created_at: now,
        updated_at: now,
    }
}

// ---------------------------------------------------------------------------
// The handlers.
// ---------------------------------------------------------------------------

/// Create an account: validate, reject a taken email, hash the password,
/// store the user, and answer with a token and the public user view.
pub fn register(
    store: &mut UserStore,
    codec: &TokenCodec,
    req: RegisterRequest,
    id: String,
    now: usize,
) -> (r: Result<AuthResponse, AuthError>)
    requires
        old(store).wf(),
        now <= usize::MAX - TOKEN_TTL_SECONDS,
    ensures
        final(store).wf(),
        !register_valid(req@) ==> r == Err::<AuthResponse, AuthError>(AuthError::ValidationFailure)
            && final(store)@ == old(store)@,
        register_valid(req@) && contains_email(old(store)@, req@.email) ==> r == Err::<
            AuthResponse,
            AuthError,
        >(AuthError::DuplicateEmail) && final(store)@ == old(store)@,
        register_valid(req@) && !contains_email(old(store)@, req@.email) && !contains_id(
            old(store)@,
            id@,
        ) ==> (r is Ok || r == Err::<AuthResponse, AuthError>(AuthError::HashingFailure)),
        match r {
            Ok(resp) => register_valid(req@) && !contains_email(old(store)@, req@.email)
                && resp.user@ == UserResponseView {
                id: id@,
                email: req@.email,
                full_name: req@.full_name,
                role: chosen_role(req@),
            } && exists|h: Seq<char>|
                {
                    &&& #[trigger] bcrypt_check(req@.password, h)
                    &&& bcrypt_wf(h)
                    &&& final(store)@ == old(store)@.push(new_user_view(req@, id@, h, now))
                    &&& resp.token@ == token_chars(
                        issued_claims(new_user_view(req@, id@, h, now), now),
                        codec@,
                    )
                },
            Err(e) => {
                &&& final(store)@ == old(store)@
                &&& (e == AuthError::ValidationFailure <==> !register_valid(req@))
                &&& (e == AuthError::DuplicateEmail ==> contains_email(old(store)@, req@.email))
                &&& (e == AuthError::StorageFailure ==> !contains_email(old(store)@, req@.email)
                    && contains_id(old(store)@, id@))
                &&& (e == AuthError::ValidationFailure || e == AuthError::DuplicateEmail || e
                    == AuthError::StorageFailure || e == AuthError::HashingFailure)
            },
        },
{
    let student = String::from_str("student");
    let instructor = String::from_str("instructor");
    let role: String = match &req.role {
        Some(r) => {
            if *r == student || *r == instructor {
                r.clone()
            } else {
                return Err(AuthError::ValidationFailure);
            }
        },
        None => student,
    };
    if req.email.as_str().is_empty() || req.full_name.as_str().is_empty() {
        return Err(AuthError::ValidationFailure);
    }
    if store.find_by_email(req.email.as_str()).is_some() {
        return Err(AuthError::DuplicateEmail);
    }
    let password_hash = match CredentialStore::hash(req.password.as_str()) {
        Ok(h) => h,
        Err(e) => {
            return Err(e);
        },
    };
    let user_resp = UserResponse {
        id: id.clone(),
        email: req.email.clone(),
        full_name: req.full_name.clone(),
        role: role.clone(),
    };
    let ghost h = password_hash@;
    let user = User {
        id,
        email: req.email,
        password_hash,
        full_name: req.full_name,
        role,
        created_at: now,
        updated_at: now,
    };
    let ghost nv = user@;
    match store.insert(user) {
        Ok(()) => {},
        Err(e) => {
            return Err(e);
        },
    }
    let found = store.find_by_email(user_resp.email.as_str());
    let stored = match found {
        Some(u) => u,
        None => {
            proof {
                assert(contains_email(store@, nv.email)) by {
                    assert(store@[store@.len() - 1] == nv);
                }
                assert(false);
            }
            return Err(AuthError::StorageFailure);
        },
    };
    proof {
        let i = choose|i: int| 0 <= i < store@.len() && store@[i] == stored@;
        assert(store@[store@.len() - 1] == nv);
        if i < store@.len() - 1 {
            assert(contains_email(old(store)@, nv.email)) by {
                assert(old(store)@[i] == store@[i]);
            }
        }
        assert(stored@ == nv);
        assert(bcrypt_check(req@.password, h));
        assert(bcrypt_wf(h));
        assert(store@ == old(store)@.push(new_user_view(req@, id@, h, now)));
    }
    let token = codec.issue(stored, now);
    Ok(AuthResponse { token, user: user_resp })
}

/// Whatever user carries this email — if any does — the password does not
/// check against its hash. Covers the unknown email and the wrong password in
/// one condition, deliberately: both must look the same from outside.
pub open spec fn login_rejected(s: Seq<UserView>, email: Seq<char>, password: Seq<char>) -> bool {
    forall|i: int|
        0 <= i < s.len() && s[i].email == email ==> !bcrypt_check(password, s[i].password_hash)
}

/// Log a user in: look the email up, check the password, and answer exactly as
/// a registration does. An unknown email and a wrong password yield the same
/// `InvalidCredentials`.
pub fn login(store: &UserStore, codec: &TokenCodec, req: LoginRequest, now: usize) -> (r: Result<
    AuthResponse,
    AuthError,
>)
    requires
        store.wf(),
        now <= usize::MAX - TOKEN_TTL_SECONDS,
    ensures
        !contains_email(store@, req@.email) ==> r == Err::<AuthResponse, AuthError>(
            AuthError::InvalidCredentials,
        ),
        r == Err::<AuthResponse, AuthError>(AuthError::InvalidCredentials) ==> login_rejected(
            store@,
            req@.email,
            req@.password,
        ),
        login_rejected(store@, req@.email, req@.password) ==> (r == Err::<AuthResponse, AuthError>(
            AuthError::InvalidCredentials,
        ) || r == Err::<AuthResponse, AuthError>(AuthError::VerificationFailure)),
        r == Err::<AuthResponse, AuthError>(AuthError::VerificationFailure) <==> exists|i: int|
            {
                &&& 0 <= i < store@.len()
                &&& #[trigger] store@[i].email == req@.email
                &&& !bcrypt_wf(store@[i].password_hash)
            },
        login_rejected(store@, req@.email, req@.password) && (forall|i: int|
            0 <= i < store@.len() && #[trigger] store@[i].email == req@.email ==> bcrypt_wf(
                store@[i].password_hash,
            )) ==> r == Err::<AuthResponse, AuthError>(AuthError::InvalidCredentials),
        (exists|i: int|
            {
                &&& 0 <= i < store@.len()
                &&& #[trigger] store@[i].email == req@.email
                &&& bcrypt_wf(store@[i].password_hash)
                &&& bcrypt_check(req@.password, store@[i].password_hash)
            }) ==> r is Ok,
        match r {
            Ok(resp) => exists|i: int|
                {
                    &&& 0 <= i < store@.len()
                    &&& #[trigger] store@[i].email == req@.email
                    &&& bcrypt_check(req@.password, store@[i].password_hash)
                    &&& resp.token@ == token_chars(issued_claims(store@[i], now), codec@)
                    &&& resp.user@ == user_response_view(store@[i])
                },
            Err(e) => e == AuthError::InvalidCredentials || e == AuthError::VerificationFailure,
        },
{
    let user = match store.find_by_email(req.email.as_str()) {
        Some(u) => u,
        None => {
            return Err(AuthError::InvalidCredentials);
        },
    };
    proof {
        let j = choose|j: int| 0 <= j < store@.len() && store@[j] == user@;
        assert forall|i: int|
            0 <= i < store@.len() && store@[i].email == req@.email implies store@[i]
            == user@ by {
            if i != j {
                assert(store@[i].email != store@[j].email);
            }
        }
    }
    let valid = match CredentialStore::verify(req.password.as_str(), user.password_hash.as_str()) {
        Ok(b) => b,
        Err(e) => {
            return Err(e);
        },
    };
    if !valid {
        return Err(AuthError::InvalidCredentials);
    }
    let token = codec.issue(user, now);
    let resp = UserResponse {
        id: user.id.clone(),
        email: user.email.clone(),
        full_name: user.full_name.clone(),
        role: user.role.clone(),
    };
    Ok(AuthResponse { token, user: resp })
}

/// Fetch the public view of the authenticated user: the verified claims'
/// subject is the key, and a user deleted since issuance answers `NotFound`.
pub fn profile(store: &UserStore, claims: &Claims) -> (r: Result<UserResponse, AuthError>)
    requires
        store.wf(),
    ensures
        match r {
            Ok(resp) => exists|i: int|
                0 <= i < store@.len() && #[trigger] store@[i].id == claims@.sub && resp@
                    == user_response_view(store@[i]),
            Err(e) => e == AuthError::NotFound && !contains_id(store@, claims@.sub),
        },
        contains_id(store@, claims@.sub) <==> r is Ok,
{
    match store.find_by_id(claims.sub.as_str()) {
        Some(u) => Ok(
            UserResponse {
                id: u.id.clone(),
                email: u.email.clone(),
                full_name: u.full_name.clone(),
                role: u.role.clone(),
            },
        ),
        None => Err(AuthError::NotFound),
    }
}

/// Log out. Sessions are stateless — the token itself is the only record — so
/// there is nothing to invalidate server-side: a bare no-content acknowledgement.
pub fn logout() -> (r: u16)
    ensures
        r == 204,
{
    204
}

/// The health probe's answer for a given persistence-connectivity outcome.
pub fn health_check(database_reachable: bool) -> (r: (u16, String, String))
    ensures
        database_reachable ==> r.0 == 200 && r.1@ == "ok"@ && r.2@ == "connected"@,
        !database_reachable ==> r.0 == 503 && r.1@ == "degraded"@ && r.2@ == "unreachable"@,
{
    if database_reachable {
        (200, String::from_str("ok"), String::from_str("connected"))
    } else {
        (503, String::from_str("degraded"), String::from_str("unreachable"))
    }
}

// ---------------------------------------------------------------------------
// Laws.
// ---------------------------------------------------------------------------

/// After a successful registration — which pushes the new user onto the store —
/// the store contains that email, so by `register`'s contract any further valid
/// registration of the same email answers `DuplicateEmail` and leaves every
/// stored record, the first registration's included, unchanged.
pub proof fn lemma_register_then_duplicate(s: Seq<UserView>, u: UserView)
    ensures
        contains_email(s.push(u), u.email),
{
    assert(s.push(u)[s.len() as int].email == u.email);
}

/// Uniform credential failure: a login that fails because the email is unknown
/// and one that fails because the password does not check against a stored,
/// well-formed hash — the only kind a registration stores — both satisfy
/// `login_rejected` with every matching hash well formed, so by `login`'s
/// contract both answer the single `InvalidCredentials` variant, which narrows
/// to one fixed status and message: the two responses are bit-identical.
pub proof fn lemma_login_error_uniform(
    s: Seq<UserView>,
    e1: Seq<char>,
    pw1: Seq<char>,
    e2: Seq<char>,
    pw2: Seq<char>,
)
    requires
        !contains_email(s, e1),
        forall|i: int|
            0 <= i < s.len() && #[trigger] s[i].email == e2 ==> bcrypt_wf(s[i].password_hash)
                && !bcrypt_check(pw2, s[i].password_hash),
    ensures
        login_rejected(s, e1, pw1),
        login_rejected(s, e2, pw2),
        forall|i: int|
            0 <= i < s.len() && #[trigger] s[i].email == e1 ==> bcrypt_wf(s[i].password_hash),
        forall|i: int|
            0 <= i < s.len() && #[trigger] s[i].email == e2 ==> bcrypt_wf(s[i].password_hash),
        status_spec(AuthError::InvalidCredentials) == 401,
        message_spec(AuthError::InvalidCredentials) == "Invalid email or password"@,
{
}

/// A freshly issued registration or login token verifies until it expires: the
/// claims come back exactly, and their subject and role are the stored user's
/// id and role.
pub proof fn lemma_registered_token_verifies(u: UserView, key: Seq<char>, now: usize, later: usize)
    requires
        u.id.len() <= usize::MAX,
        u.email.len() <= usize::MAX,
        u.role.len() <= usize::MAX,
        now <= usize::MAX - TOKEN_TTL_SECONDS,
        later < now + TOKEN_TTL_SECONDS,
    ensures
        verify_model(token_chars(issued_claims(u, now), key), key, later) == Ok::<
            ClaimsView,
            AuthError,
        >(issued_claims(u, now)),
        issued_claims(u, now).sub == u.id,
        issued_claims(u, now).role == u.role,
{
    lemma_issue_verify_roundtrip(issued_claims(u, now), key, later);
}

} // verus!
