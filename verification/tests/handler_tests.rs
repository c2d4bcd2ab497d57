use user_gateway::claims::Claims;
use user_gateway::handlers::{
    delete_user, get_root, get_user, post_user, put_user, ErrorCode, ResponseBody,
};
use user_gateway::store::UserStore;
use user_gateway::update::NewUser;

const BOB_ID: &str = "123e4567-e89b-12d3-a456-426614174000";

fn admin_claims() -> Claims {
    Claims {
        subject: String::from("admin-1"),
        audiences: vec![String::from("account")],
        roles: vec![String::from("user"), String::from("administrator")],
        expiry: 2_000_000_000,
    }
}

fn user_claims() -> Claims {
    Claims {
        subject: String::from("user-1"),
        audiences: vec![String::from("account")],
        roles: vec![String::from("user")],
        expiry: 2_000_000_000,
    }
}

fn bob_request() -> NewUser {
    NewUser {
        user_id: String::from(BOB_ID),
        username: Some(String::from("bob")),
        email: None,
    }
}

#[test]
fn liveness_answers_healthy() {
    let (status, text) = get_root();
    assert_eq!(status, 200);
    assert_eq!(text, String::from("healthy"));
}

#[test]
fn post_without_email_creates_then_conflicts() {
    let mut store = UserStore::new();
    let admin = admin_claims();

    let first = post_user(&admin, &bob_request(), &mut store);
    assert_eq!(first.status, 201);
    match first.body {
        ResponseBody::UserData(u) => {
            assert_eq!(u.username, String::from("bob"));
            assert_eq!(u.email, None);
        }
        _ => panic!("expected the created user back"),
    }

    let second = post_user(&admin, &bob_request(), &mut store);
    assert_eq!(second.status, 409);
    assert!(matches!(
        second.body,
        ResponseBody::Error(ErrorCode::UserAlreadyExists)
    ));
}

#[test]
fn post_needs_administrator_role() {
    let mut store = UserStore::new();
    let r = post_user(&user_claims(), &bob_request(), &mut store);
    assert_eq!(r.status, 403);
    assert!(matches!(
        r.body,
        ResponseBody::Error(ErrorCode::InsufficientPrivileges)
    ));
    assert!(store.find_user(0x123e4567e89b12d3a456426614174000u128).is_none());
}

#[test]
fn post_rejects_bad_identifier() {
    let mut store = UserStore::new();
    let req = NewUser {
        user_id: String::from("zzz"),
        username: Some(String::from("bob")),
        email: None,
    };
    let r = post_user(&admin_claims(), &req, &mut store);
    assert_eq!(r.status, 422);
    assert!(matches!(r.body, ResponseBody::Error(ErrorCode::InvalidUuid)));
}

#[test]
fn post_rejects_missing_or_blank_username() {
    let mut store = UserStore::new();
    let missing = NewUser {
        user_id: String::from(BOB_ID),
        username: None,
        email: None,
    };
    let r = post_user(&admin_claims(), &missing, &mut store);
    assert_eq!(r.status, 422);
    assert!(matches!(
        r.body,
        ResponseBody::Error(ErrorCode::UsernameRequired)
    ));

    let blank = NewUser {
        user_id: String::from(BOB_ID),
        username: Some(String::from("  ")),
        email: None,
    };
    let r = post_user(&admin_claims(), &blank, &mut store);
    assert_eq!(r.status, 422);
    assert!(matches!(
        r.body,
        ResponseBody::Error(ErrorCode::UsernameRequired)
    ));
}

#[test]
fn post_rejects_bad_email() {
    let mut store = UserStore::new();
    let req = NewUser {
        user_id: String::from(BOB_ID),
        username: Some(String::from("bob")),
        email: Some(String::from("not-an-address")),
    };
    let r = post_user(&admin_claims(), &req, &mut store);
    assert_eq!(r.status, 422);
    assert!(matches!(r.body, ResponseBody::Error(ErrorCode::InvalidEmail)));
}

#[test]
fn get_returns_stored_user_or_not_found() {
    let mut store = UserStore::new();
    let req = NewUser {
        user_id: String::from(BOB_ID),
        username: Some(String::from("bob")),
        email: Some(String::from("b@x.com")),
    };
    post_user(&admin_claims(), &req, &mut store);

    let hit = get_user(BOB_ID, &store);
    assert_eq!(hit.status, 200);
    match hit.body {
        ResponseBody::UserData(u) => {
            assert_eq!(u.username, String::from("bob"));
            assert_eq!(u.email, Some(String::from("b@x.com")));
        }
        _ => panic!("expected the stored user"),
    }

    let miss = get_user("550e8400-e29b-41d4-a716-446655440000", &store);
    assert_eq!(miss.status, 404);
    assert!(matches!(miss.body, ResponseBody::Error(ErrorCode::UserNotFound)));
}

#[test]
fn get_rejects_bad_identifier() {
    let store = UserStore::new();
    let r = get_user("not-a-uuid", &store);
    assert_eq!(r.status, 400);
    assert!(matches!(r.body, ResponseBody::Error(ErrorCode::InvalidUuid)));
}

#[test]
fn put_updates_only_the_supplied_field() {
    let mut store = UserStore::new();
    post_user(
        &admin_claims(),
        &NewUser {
            user_id: String::from(BOB_ID),
            username: Some(String::from("bob")),
            email: Some(String::from("b@x.com")),
        },
        &mut store,
    );
    let patch = NewUser {
        user_id: String::from(BOB_ID),
        username: None,
        email: Some(String::from("new@x.com")),
    };
    let r = put_user(&admin_claims(), BOB_ID, &patch, &mut store);
    assert_eq!(r.status, 200);
    match r.body {
        ResponseBody::UserData(u) => {
            assert_eq!(u.username, String::from("bob"));
            assert_eq!(u.email, Some(String::from("new@x.com")));
        }
        _ => panic!("expected the updated user"),
    }
}

#[test]
fn put_with_nothing_to_assign_touches_no_row() {
    let mut store = UserStore::new();
    post_user(&admin_claims(), &bob_request(), &mut store);
    let patch = NewUser {
        user_id: String::from(BOB_ID),
        username: Some(String::from("   ")),
        email: None,
    };
    let r = put_user(&admin_claims(), BOB_ID, &patch, &mut store);
    assert_eq!(r.status, 404);
    assert!(matches!(
        r.body,
        ResponseBody::Error(ErrorCode::NoFieldsToUpdate)
    ));
    let kept = get_user(BOB_ID, &store);
    match kept.body {
        ResponseBody::UserData(u) => assert_eq!(u.username, String::from("bob")),
        _ => panic!("row must be untouched"),
    }
}

#[test]
fn put_rejects_bad_email_before_the_store() {
    let mut store = UserStore::new();
    post_user(&admin_claims(), &bob_request(), &mut store);
    let patch = NewUser {
        user_id: String::from(BOB_ID),
        username: None,
        email: Some(String::from("broken")),
    };
    let r = put_user(&admin_claims(), BOB_ID, &patch, &mut store);
    assert_eq!(r.status, 422);
    assert!(matches!(r.body, ResponseBody::Error(ErrorCode::InvalidEmail)));
}

#[test]
fn put_needs_administrator_role() {
    let mut store = UserStore::new();
    let patch = NewUser {
        user_id: String::from(BOB_ID),
        username: Some(String::from("bob")),
        email: None,
    };
    let r = put_user(&user_claims(), BOB_ID, &patch, &mut store);
    assert_eq!(r.status, 403);
}

#[test]
fn put_bad_identifier_is_a_request_error() {
    let mut store = UserStore::new();
    let patch = NewUser {
        user_id: String::from("zzz"),
        username: Some(String::from("bob")),
        email: None,
    };
    let r = put_user(&admin_claims(), "zzz", &patch, &mut store);
    assert_eq!(r.status, 400);
    assert!(matches!(r.body, ResponseBody::Error(ErrorCode::InvalidUuid)));
}

#[test]
fn delete_answers_accepted_then_not_found() {
    let mut store = UserStore::new();
    post_user(&admin_claims(), &bob_request(), &mut store);
    let first = delete_user(&admin_claims(), BOB_ID, &mut store);
    assert_eq!(first.status, 202);
    assert!(matches!(first.body, ResponseBody::Deleted));
    let second = delete_user(&admin_claims(), BOB_ID, &mut store);
    assert_eq!(second.status, 404);
    let third = delete_user(&admin_claims(), BOB_ID, &mut store);
    assert_eq!(third.status, 404);
}

#[test]
fn delete_needs_administrator_role() {
    let mut store = UserStore::new();
    post_user(&admin_claims(), &bob_request(), &mut store);
    let r = delete_user(&user_claims(), BOB_ID, &mut store);
    assert_eq!(r.status, 403);
    assert_eq!(get_user(BOB_ID, &store).status, 200);
}
