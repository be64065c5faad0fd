//! What a bearer token must carry: the prefix of the header, and the user
//! and organization claims.

use vstd::prelude::*;
use vstd::string::StringExecFns;

use crate::errors::{AppError, AppErrorView};
use crate::ids::{parse_uuid, uuid_text_value};
use crate::models::alert_event::text_of;
use crate::text::{occurs_at, strip_prefix};

verus! {

/// The user a connection is opened for.
#[derive(Clone, Copy, Debug, PartialEq, Eq, Structural)]
pub struct AuthContext {
    pub user_id: u128,
    pub organization_id: u128,
}

/// The claims of a verified token.
#[derive(Clone, Debug)]
pub struct JwtClaims {
    pub sub: Option<String>,
    pub user_id: Option<String>,
    pub organization_id: Option<String>,
    pub exp: usize,
}

/// The token in an `Authorization` header: what follows `Bearer ` or
/// `bearer `.
pub open spec fn bearer_token_of(header: Seq<char>) -> Result<Seq<char>, AppErrorView> {
    if occurs_at(header, "Bearer "@, 0) {
        Ok(header.skip(7))
    } else if occurs_at(header, "bearer "@, 0) {
        Ok(header.skip(7))
    } else {
        Err(AppErrorView::Jwt("missing Bearer token prefix"@))
    }
}

/// The user a token's claims name: `user_id`, or else `sub`; and the
/// organization; both must be UUIDs.
pub open spec fn context_of_claims(
    sub: Option<Seq<char>>,
    user_id: Option<Seq<char>>,
    organization_id: Option<Seq<char>>,
) -> Result<AuthContext, AppErrorView> {
    let user = match user_id {
        Some(u) => Some(u),
        None => sub,
    };
    match user {
        None => Err(AppErrorView::Jwt("missing user_id claim"@)),
        Some(u) => match organization_id {
            None => Err(AppErrorView::Jwt("missing organization_id claim"@)),
            Some(o) => match uuid_text_value(u) {
                None => Err(AppErrorView::InvalidUuid("user_id claim"@)),
                Some(uid) => match uuid_text_value(o) {
                    None => Err(AppErrorView::InvalidUuid("organization_id claim"@)),
                    Some(oid) => Ok(AuthContext { user_id: uid, organization_id: oid }),
                },
            },
        },
    }
}

pub open spec fn token_result(r: Result<String, AppError>) -> Result<Seq<char>, AppErrorView> {
    match r {
        Ok(s) => Ok(s@),
        Err(e) => Err(e@),
    }
}

pub open spec fn context_result(r: Result<AuthContext, AppError>) -> Result<AuthContext, AppErrorView> {
    match r {
        Ok(c) => Ok(c),
        Err(e) => Err(e@),
    }
}

/// The token that an `Authorization` header carries.
pub fn bearer_token(header: &str) -> (r: Result<String, AppError>)
    ensures
        token_result(r) == bearer_token_of(header@),
{
    proof {
        reveal_strlit("Bearer ");
        reveal_strlit("bearer ");
    }
    match strip_prefix(header, "Bearer ") {
        Some(token) => Ok(token),
        None => match strip_prefix(header, "bearer ") {
            Some(token) => Ok(token),
            None => Err(AppError::Jwt(String::from_str("missing Bearer token prefix"))),
        },
    }
}

/// The user that a verified token's claims name.
pub fn auth_context_from_claims(claims: &JwtClaims) -> (r: Result<AuthContext, AppError>)
    ensures
        context_result(r) == context_of_claims(text_of(claims.sub), text_of(claims.user_id), text_of(claims.organization_id)),
{
    let user = match &claims.user_id {
        Some(u) => u,
        None => match &claims.sub {
            Some(s) => s,
            None => {
                return Err(AppError::Jwt(String::from_str("missing user_id claim")));
            },
        },
    };
    let organization = match &claims.organization_id {
        Some(o) => o,
        None => {
            return Err(AppError::Jwt(String::from_str("missing organization_id claim")));
        },
    };
    let user_id = match parse_uuid(user.as_str()) {
        Some(id) => id,
        None => {
            return Err(AppError::InvalidUuid(String::from_str("user_id claim")));
        },
    };
    let organization_id = match parse_uuid(organization.as_str()) {
        Some(id) => id,
        None => {
            return Err(AppError::InvalidUuid(String::from_str("organization_id claim")));
        },
    };
    Ok(AuthContext { user_id, organization_id })
}

} // verus!
