//! The route handlers for the user resource, verified against the model
//! store: each one's whole behaviour — the administrator gate, input
//! validation, the store operation and the response mapping — is a spec
//! function, and the executable handler is proved equal to it.

use vstd::prelude::*;
use crate::claims::Claims;
use crate::ids::{parse_user_id, uuid_value};
use crate::policy::{admin_allowed, is_admin};
use crate::store::{
    apply_all, has_user, index_of, user_of, CreateOutcome, RemoveOutcome, UpdateOutcome, User,
    UserStore, UserV, distinct_ids,
};
use crate::text::{blank, is_valid_email, valid_email};
use crate::update::{
    build_spec, build_update_command, field_value, opt_view, qualifies, BuildV, NewUser,
    UpdateRejection,
};

verus! {

/// The machine-readable reason attached to every client-visible failure.
#[derive(PartialEq, Eq, Structural, Clone, Copy, Debug)]
pub enum ErrorCode {
    InvalidUuid,
    UsernameRequired,
    InvalidEmail,
    InsufficientPrivileges,
    UserNotFound,
    UserAlreadyExists,
    NoFieldsToUpdate,
}

/// What a handler hands back beside the status.
#[derive(Debug)]
pub enum ResponseBody {
    /// The resource representation returned by reads, creations and
    /// updates.
    UserData(User),
    /// The acknowledgement of a deletion.
    Deleted,
    Error(ErrorCode),
}

/// A handler's whole answer: transport status and body.
#[derive(Debug)]
pub struct ApiResponse {
    pub status: u16,
    pub body: ResponseBody,
}

/// Ghost image of a response body.
pub ghost enum BodyV {
    UserData(UserV),
    Deleted,
    Error(ErrorCode),
}

/// Ghost image of a response.
pub ghost struct ResponseV {
    pub status: u16,
    pub body: BodyV,
}

/// Ghost image of an `ApiResponse`.
pub open spec fn response_view(r: ApiResponse) -> ResponseV {
    ResponseV {
        status: r.status,
        body: match r.body {
            ResponseBody::UserData(u) => BodyV::UserData(u@),
            ResponseBody::Deleted => BodyV::Deleted,
            ResponseBody::Error(e) => BodyV::Error(e),
        },
    }
}

/// Shorthand for a failing response.
pub open spec fn error_response(status: u16, code: ErrorCode) -> ResponseV {
    ResponseV { status, body: BodyV::Error(code) }
}

/// An email field is acceptable when it is absent or well-formed.
pub open spec fn email_acceptable(e: Option<Seq<char>>) -> bool {
    match e {
        None => true,
        Some(v) => valid_email(v),
    }
}

/// The liveness answer: the service reports itself healthy, always with
/// status 200.
pub fn get_root() -> (r: (u16, String))
    ensures
        r.0 == 200,
        r.1@ == "healthy"@,
{
    (200, String::from_str("healthy"))
}

/// The read: an unparsable identifier is the client's error, an absent one
/// is `UserNotFound`, and a present one is returned exactly as stored.
pub open spec fn get_user_spec(id_text: Seq<char>, s: Seq<UserV>) -> ResponseV {
    match uuid_value(id_text) {
        None => error_response(400, ErrorCode::InvalidUuid),
        Some(id) => if has_user(s, id) {
            ResponseV { status: 200, body: BodyV::UserData(user_of(s, id)) }
        } else {
            error_response(404, ErrorCode::UserNotFound)
        },
    }
}

/// Reads one user by the identifier text taken from the request path.
pub fn get_user(id_text: &str, store: &UserStore) -> (r: ApiResponse)
    requires
        store.wf(),
    ensures
        response_view(r) == get_user_spec(id_text@, store@),
{
    let id = match parse_user_id(id_text) {
        Some(id) => id,
        None => {
            return ApiResponse { status: 400, body: ResponseBody::Error(ErrorCode::InvalidUuid) };
        },
    };
    match store.find_user(id) {
        Some(u) => ApiResponse { status: 200, body: ResponseBody::UserData(u) },
        None => ApiResponse { status: 404, body: ResponseBody::Error(ErrorCode::UserNotFound) },
    }
}

/// The creation: administrators only; the identifier must parse, the
/// username must be supplied non-blank, a supplied email must be
/// well-formed; an identifier already stored is the uniqueness conflict.
pub open spec fn post_user_spec(claims: Claims, req: NewUser, s: Seq<UserV>) -> (ResponseV, Seq<
    UserV,
>) {
    if !is_admin(&claims) {
        (error_response(403, ErrorCode::InsufficientPrivileges), s)
    } else {
        match uuid_value(req.user_id@) {
            None => (error_response(422, ErrorCode::InvalidUuid), s),
            Some(id) => if !qualifies(opt_view(req.username)) {
                (error_response(422, ErrorCode::UsernameRequired), s)
            } else if !email_acceptable(opt_view(req.email)) {
                (error_response(422, ErrorCode::InvalidEmail), s)
            } else if has_user(s, id) {
                (error_response(409, ErrorCode::UserAlreadyExists), s)
            } else {
                let u = UserV {
                    id,
                    name: field_value(opt_view(req.username)),
                    email: opt_view(req.email),
                };
                (ResponseV { status: 201, body: BodyV::UserData(u) }, s.push(u))
            },
        }
    }
}

/// Creates one user from a request body.
pub fn post_user(claims: &Claims, req: &NewUser, store: &mut UserStore) -> (r: ApiResponse)
    requires
        old(store).wf(),
    ensures
        final(store).wf(),
        (response_view(r), final(store)@) == post_user_spec(*claims, *req, old(store)@),
{
    if !admin_allowed(claims) {
        return ApiResponse {
            status: 403,
            body: ResponseBody::Error(ErrorCode::InsufficientPrivileges),
        };
    }
    let id = match parse_user_id(req.user_id.as_str()) {
        Some(id) => id,
        None => {
            return ApiResponse { status: 422, body: ResponseBody::Error(ErrorCode::InvalidUuid) };
        },
    };
    let username = match &req.username {
        Some(name) => {
            if blank(name.as_str()) {
                return ApiResponse {
                    status: 422,
                    body: ResponseBody::Error(ErrorCode::UsernameRequired),
                };
            } else {
                name.clone()
            }
        },
        None => {
            return ApiResponse {
                status: 422,
                body: ResponseBody::Error(ErrorCode::UsernameRequired),
            };
        },
    };
    let email = match &req.email {
        Some(e) => {
            if is_valid_email(e.as_str()) {
                Some(e.clone())
            } else {
                return ApiResponse {
                    status: 422,
                    body: ResponseBody::Error(ErrorCode::InvalidEmail),
                };
            }
        },
        None => None,
    };
    let user = User { user_id: id, username, email };
    let echo = user.clone();
    match store.create_user(user) {
        CreateOutcome::Created => ApiResponse { status: 201, body: ResponseBody::UserData(echo) },
        CreateOutcome::AlreadyExists => ApiResponse {
            status: 409,
            body: ResponseBody::Error(ErrorCode::UserAlreadyExists),
        },
    }
}

/// The partial update: administrators only; the builder rejects an
/// unparsable identifier, then a supplied email must be well-formed, then
/// a request with nothing to assign is reported before the store is
/// touched; otherwise exactly the built assignments are applied to the one
/// filtered row, which is returned as updated.
pub open spec fn put_user_spec(claims: Claims, id_text: Seq<char>, req: NewUser, s: Seq<UserV>) -> (
    ResponseV,
    Seq<UserV>,
) {
    if !is_admin(&claims) {
        (error_response(403, ErrorCode::InsufficientPrivileges), s)
    } else {
        let built = build_spec(id_text, opt_view(req.username), opt_view(req.email));
        if built == BuildV::Rejected(UpdateRejection::InvalidIdentifier) {
            (error_response(400, ErrorCode::InvalidUuid), s)
        } else if !email_acceptable(opt_view(req.email)) {
            (error_response(422, ErrorCode::InvalidEmail), s)
        } else {
            match built {
                BuildV::Rejected(_) => (error_response(404, ErrorCode::NoFieldsToUpdate), s),
                BuildV::Command(cmd) => if !has_user(s, cmd.user_id) {
                    (error_response(404, ErrorCode::UserNotFound), s)
                } else {
                    let nu = apply_all(user_of(s, cmd.user_id), cmd.assignments);
                    (
                        ResponseV { status: 200, body: BodyV::UserData(nu) },
                        s.update(index_of(s, cmd.user_id), nu),
                    )
                },
            }
        }
    }
}

/// Applies a partial update to one user, identified by the path text.
pub fn put_user(claims: &Claims, id_text: &str, req: &NewUser, store: &mut UserStore) -> (r:
    ApiResponse)
    requires
        old(store).wf(),
    ensures
        final(store).wf(),
        (response_view(r), final(store)@) == put_user_spec(*claims, id_text@, *req, old(store)@),
{
    if !admin_allowed(claims) {
        return ApiResponse {
            status: 403,
            body: ResponseBody::Error(ErrorCode::InsufficientPrivileges),
        };
    }
    let built = build_update_command(id_text, &req.username, &req.email);
    let pending = match built {
        Err(UpdateRejection::InvalidIdentifier) => {
            return ApiResponse { status: 400, body: ResponseBody::Error(ErrorCode::InvalidUuid) };
        },
        Err(UpdateRejection::NoFieldsProvided) => None,
        Ok(cmd) => Some(cmd),
    };
    match &req.email {
        Some(e) => {
            if !is_valid_email(e.as_str()) {
                return ApiResponse {
                    status: 422,
                    body: ResponseBody::Error(ErrorCode::InvalidEmail),
                };
            }
        },
        None => {},
    }
    let cmd = match pending {
        None => {
            return ApiResponse {
                status: 404,
                body: ResponseBody::Error(ErrorCode::NoFieldsToUpdate),
            };
        },
        Some(cmd) => cmd,
    };
    match store.update_user(&cmd) {
        UpdateOutcome::Updated(u) => ApiResponse { status: 200, body: ResponseBody::UserData(u) },
        UpdateOutcome::NotFound => ApiResponse {
            status: 404,
            body: ResponseBody::Error(ErrorCode::UserNotFound),
        },
    }
}

/// The deletion: administrators only; an unparsable identifier is the
/// client's error; deleting an absent identifier is `UserNotFound`, not a
/// fault, so the operation can be repeated safely.
pub open spec fn delete_user_spec(claims: Claims, id_text: Seq<char>, s: Seq<UserV>) -> (
    ResponseV,
    Seq<UserV>,
) {
    if !is_admin(&claims) {
        (error_response(403, ErrorCode::InsufficientPrivileges), s)
    } else {
        match uuid_value(id_text) {
            None => (error_response(400, ErrorCode::InvalidUuid), s),
            Some(id) => if !has_user(s, id) {
                (error_response(404, ErrorCode::UserNotFound), s)
            } else {
                (
                    ResponseV { status: 202, body: BodyV::Deleted },
                    s.remove(index_of(s, id)),
                )
            },
        }
    }
}

/// Deletes one user, identified by the path text.
pub fn delete_user(claims: &Claims, id_text: &str, store: &mut UserStore) -> (r: ApiResponse)
    requires
        old(store).wf(),
    ensures
        final(store).wf(),
        (response_view(r), final(store)@) == delete_user_spec(*claims, id_text@, old(store)@),
{
    if !admin_allowed(claims) {
        return ApiResponse {
            status: 403,
            body: ResponseBody::Error(ErrorCode::InsufficientPrivileges),
        };
    }
    let id = match parse_user_id(id_text) {
        Some(id) => id,
        None => {
            return ApiResponse { status: 400, body: ResponseBody::Error(ErrorCode::InvalidUuid) };
        },
    };
    match store.remove_user(id) {
        RemoveOutcome::Removed(_) => ApiResponse { status: 202, body: ResponseBody::Deleted },
        RemoveOutcome::NotFound => ApiResponse {
            status: 404,
            body: ResponseBody::Error(ErrorCode::UserNotFound),
        },
    }
}

/// Creating the same user twice: on a well-formed store without the
/// identifier, an administrator's valid creation answers 201 and stores
/// the record with exactly the supplied email; the same creation repeated
/// on the resulting store answers 409 and leaves it unchanged.
pub proof fn lemma_post_user_twice(claims: Claims, req: NewUser, s: Seq<UserV>)
    requires
        distinct_ids(s),
        is_admin(&claims),
        uuid_value(req.user_id@) is Some,
        !has_user(s, uuid_value(req.user_id@).unwrap()),
        qualifies(opt_view(req.username)),
        email_acceptable(opt_view(req.email)),
    ensures
        post_user_spec(claims, req, s).0.status == 201,
        (post_user_spec(claims, req, s).0.body matches BodyV::UserData(u) && u.email == opt_view(
            req.email,
        )),
        post_user_spec(claims, req, post_user_spec(claims, req, s).1).0.status == 409,
        post_user_spec(claims, req, post_user_spec(claims, req, s).1).1 == post_user_spec(
            claims,
            req,
            s,
        ).1,
{
    let id = uuid_value(req.user_id@).unwrap();
    let u = UserV {
        id,
        name: field_value(opt_view(req.username)),
        email: opt_view(req.email),
    };
    assert(s.push(u)[s.len() as int] == u);
    assert(has_user(s.push(u), id));
}

} // verus!
