//! The authentication core of a web service: account creation, credential
//! verification, stateless sessions as signed tokens, and the request filter
//! that guards protected routes.
//!
//! - [`password`]: one-way password hashing and checking (bcrypt).
//! - [`token`]: the token codec — issuing and verifying signed session tokens
//!   with a fixed lifetime, HMAC-SHA256 signed.
//! - [`middleware`]: the per-request filter that turns a bearer authorization
//!   header into verified claims, or the single answer `Unauthenticated`.
//! - [`store`]: the user store the handlers run against, with unique emails
//!   and ids as its invariant.
//! - [`handlers`]: registration, login, profile and logout, plus the laws that
//!   tie them together.
//! - [`errors`]: the error taxonomy and its one narrowing step to
//!   client-visible responses.
//!
//! Time never comes from a clock in here: every operation that depends on it
//! takes the current Unix time as an argument, so its whole behaviour is in
//! its contract.

pub mod errors;
pub mod handlers;
pub mod middleware;
pub mod password;
pub mod store;
pub mod token;
