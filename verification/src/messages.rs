use vstd::prelude::*;

verus! {

/// A login request's credentials, as presented by the client.
#[derive(Debug)]
pub struct LoginRequest {
    pub email: String,
    pub password: String,
}

/// The reply to a login: either a plain authentication or a pending
/// second factor.
#[derive(Debug)]
pub enum LoginResponse {
    RegularAuth,
    TwoFactorAuth(TwoFactorAuthResponse),
}

/// The reply that asks the client to complete a second factor.
#[derive(Debug)]
pub struct TwoFactorAuthResponse {
    pub message: String,
    pub login_attempt_id: String,
}

/// A signup request, as presented by the client.
#[derive(Debug)]
pub struct SignupRequest {
    pub email: String,
    pub password: String,
    pub requires_2fa: bool,
}

/// The reply to a successful signup.
#[derive(Debug, PartialEq)]
pub struct SignupResponse {
    pub message: String,
}

} // verus!
