use rtcv_bridge::api::Api;
use rtcv_bridge::dispatch::{handle_in_message, handle_response, Pending, Step};
use rtcv_bridge::errors::DomainError;
use rtcv_bridge::http::{HttpOutcome, HttpRequest, Method};
use rtcv_bridge::json::JsonVal;
use rtcv_bridge::messages::{InGetSecret, InMessages, InSetCredentials, OkContent, OutMessages};

fn creds(server_location: &str, api_key_id: &str, api_key: &str) -> InSetCredentials {
    InSetCredentials {
        server_location: server_location.to_string(),
        api_key_id: api_key_id.to_string(),
        api_key: api_key.to_string(),
    }
}

fn obj(fields: Vec<(&str, JsonVal)>) -> JsonVal {
    JsonVal::Obj(fields.into_iter().map(|(k, v)| (k.to_string(), v)).collect())
}

fn ok_response(body: JsonVal) -> HttpOutcome {
    HttpOutcome::Response { status: 200, body: Some(body) }
}

fn roles_body(roles: Vec<&str>) -> JsonVal {
    obj(vec![(
        "roles",
        JsonVal::Arr(
            roles
                .into_iter()
                .map(|n| obj(vec![("role", JsonVal::Num(n.to_string()))]))
                .collect(),
        ),
    )])
}

/// Drive an authenticating `set_credentials` through both remote checks.
fn authenticate(api: &mut Api) {
    let step = handle_in_message(
        api,
        InMessages::SetCredentials(creds("http://localhost:4000", "keyid", "abc")),
        0,
    )
    .unwrap();
    let pending = match step {
        Step::Call { request, pending } => {
            assert_eq!(request.url, "http://localhost:4000/api/v1/health");
            assert!(matches!(request.method, Method::Get));
            pending
        }
        Step::Reply(_) => panic!("expected a health request"),
    };
    let step = handle_response(api, pending, ok_response(obj(vec![]))).unwrap();
    let pending = match step {
        Step::Call { request, pending } => {
            assert_eq!(request.url, "http://localhost:4000/api/v1/auth/keyinfo");
            assert!(matches!(pending, Pending::KeyInfo { .. }));
            pending
        }
        Step::Reply(_) => panic!("expected a keyinfo request"),
    };
    let step = handle_response(api, pending, ok_response(roles_body(vec!["3", "1"]))).unwrap();
    assert!(matches!(
        step,
        Step::Reply(OutMessages::Okay(OkContent::Empty))
    ));
}

#[test]
fn ping_yields_pong_in_both_states() {
    let mut api = Api::new();
    let r = handle_in_message(&mut api, InMessages::Ping, 0).unwrap();
    assert!(matches!(r, Step::Reply(OutMessages::Pong)));
    authenticate(&mut api);
    let r = handle_in_message(&mut api, InMessages::Ping, 0).unwrap();
    assert!(matches!(r, Step::Reply(OutMessages::Pong)));
}

#[test]
fn credentials_commit_only_after_all_checks() {
    let mut api = Api::new();
    let step = handle_in_message(
        &mut api,
        InMessages::SetCredentials(creds("http://h", "id", "key")),
        0,
    )
    .unwrap();
    // Not yet stored: the health check has not run.
    assert!(api.credentials.is_none());
    let pending = match step {
        Step::Call { pending, .. } => pending,
        Step::Reply(_) => panic!("expected a health request"),
    };
    let step = handle_response(&mut api, pending, ok_response(obj(vec![]))).unwrap();
    assert!(api.credentials.is_none());
    let pending = match step {
        Step::Call { pending, .. } => pending,
        Step::Reply(_) => panic!("expected a keyinfo request"),
    };
    handle_response(&mut api, pending, ok_response(roles_body(vec!["1"]))).unwrap();
    assert!(api.credentials.is_some());
}

#[test]
fn missing_scraper_role_is_an_auth_error() {
    let mut api = Api::new();
    let step = handle_in_message(
        &mut api,
        InMessages::SetCredentials(creds("http://h", "id", "key")),
        0,
    )
    .unwrap();
    let pending = match step {
        Step::Call { pending, .. } => pending,
        Step::Reply(_) => panic!("expected a health request"),
    };
    let step = handle_response(&mut api, pending, ok_response(obj(vec![]))).unwrap();
    let pending = match step {
        Step::Call { pending, .. } => pending,
        Step::Reply(_) => panic!("expected a keyinfo request"),
    };
    let r = handle_response(&mut api, pending, ok_response(roles_body(vec!["2", "3"])));
    assert_eq!(
        r.unwrap_err(),
        DomainError::Auth("provided key does not have scraper role (nr 1)".to_string())
    );
    // The staged credentials were discarded, not stored.
    assert!(api.credentials.is_none());
}

#[test]
fn failed_health_check_is_an_auth_error() {
    let mut api = Api::new();
    let step = handle_in_message(
        &mut api,
        InMessages::SetCredentials(creds("http://h", "id", "key")),
        0,
    )
    .unwrap();
    let pending = match step {
        Step::Call { pending, .. } => pending,
        Step::Reply(_) => panic!("expected a health request"),
    };
    let r = handle_response(
        &mut api,
        pending,
        HttpOutcome::Transport("connection refused".to_string()),
    );
    assert_eq!(r.unwrap_err(), DomainError::Auth("connection refused".to_string()));
    assert!(api.credentials.is_none());
}

#[test]
fn remote_error_payload_surfaces_its_text() {
    let mut api = Api::new();
    authenticate(&mut api);
    let step = handle_in_message(
        &mut api,
        InMessages::GetSecret(InGetSecret {
            encryption_key: "ek".to_string(),
            key: Some("k".to_string()),
        }),
        0,
    )
    .unwrap();
    let pending = match step {
        Step::Call { pending, .. } => pending,
        Step::Reply(_) => panic!("expected a secret request"),
    };
    let outcome = HttpOutcome::Response {
        status: 500,
        body: Some(obj(vec![("error", JsonVal::Str("boom".to_string()))])),
    };
    let r = handle_response(&mut api, pending, outcome);
    assert_eq!(r.unwrap_err(), DomainError::Api("boom".to_string()));
}

#[test]
fn unparsable_error_body_is_a_protocol_error() {
    let mut api = Api::new();
    authenticate(&mut api);
    let step = handle_in_message(
        &mut api,
        InMessages::GetSecret(InGetSecret {
            encryption_key: "ek".to_string(),
            key: Some("k".to_string()),
        }),
        0,
    )
    .unwrap();
    let pending = match step {
        Step::Call { pending, .. } => pending,
        Step::Reply(_) => panic!("expected a secret request"),
    };
    let r = handle_response(&mut api, pending, HttpOutcome::Response { status: 404, body: None });
    assert_eq!(r.unwrap_err(), DomainError::Protocol);
}

#[test]
fn transport_failure_is_a_network_error() {
    let mut api = Api::new();
    authenticate(&mut api);
    let step = handle_in_message(
        &mut api,
        InMessages::GetSecret(InGetSecret {
            encryption_key: "ek".to_string(),
            key: Some("k".to_string()),
        }),
        0,
    )
    .unwrap();
    let pending = match step {
        Step::Call { pending, .. } => pending,
        Step::Reply(_) => panic!("expected a secret request"),
    };
    let r = handle_response(
        &mut api,
        pending,
        HttpOutcome::Transport("dns failure".to_string()),
    );
    assert_eq!(r.unwrap_err(), DomainError::Network("dns failure".to_string()));
}

#[test]
fn protected_commands_require_credentials() {
    let mut api = Api::new();
    let r = handle_in_message(
        &mut api,
        InMessages::GetSecret(InGetSecret {
            encryption_key: "ek".to_string(),
            key: Some("k".to_string()),
        }),
        0,
    );
    assert_eq!(r.unwrap_err(), DomainError::NotAuthenticated);
    assert_eq!(
        DomainError::NotAuthenticated.message(),
        "credentials not set".to_string()
    );
}

#[test]
fn get_secret_requires_key() {
    let mut api = Api::new();
    authenticate(&mut api);
    let r = handle_in_message(
        &mut api,
        InMessages::GetSecret(InGetSecret { encryption_key: "ek".to_string(), key: None }),
        0,
    );
    assert_eq!(r.unwrap_err(), DomainError::Validation("key is required".to_string()));
}

#[test]
fn get_secret_url_and_passthrough() {
    let mut api = Api::new();
    authenticate(&mut api);
    let step = handle_in_message(
        &mut api,
        InMessages::GetSecret(InGetSecret {
            encryption_key: "enc".to_string(),
            key: Some("mykey".to_string()),
        }),
        0,
    )
    .unwrap();
    let pending = match step {
        Step::Call { request, pending } => {
            assert_eq!(
                request.url,
                "http://localhost:4000/api/v1/secrets/myKey/mykey/enc"
            );
            pending
        }
        Step::Reply(_) => panic!("expected a secret request"),
    };
    let payload = obj(vec![("x", JsonVal::Num("7".to_string()))]);
    let step = handle_response(&mut api, pending, ok_response(payload)).unwrap();
    match step {
        Step::Reply(OutMessages::Okay(OkContent::Secret(JsonVal::Obj(fields)))) => {
            assert_eq!(fields.len(), 1);
            assert_eq!(fields[0].0, "x");
        }
        _ => panic!("expected the secret payload back"),
    }
}

#[test]
fn null_secret_is_not_found() {
    let mut api = Api::new();
    authenticate(&mut api);
    let step = handle_in_message(
        &mut api,
        InMessages::GetSecret(InGetSecret {
            encryption_key: "ek".to_string(),
            key: Some("k".to_string()),
        }),
        0,
    )
    .unwrap();
    let pending = match step {
        Step::Call { pending, .. } => pending,
        Step::Reply(_) => panic!("expected a secret request"),
    };
    let r = handle_response(&mut api, pending, ok_response(JsonVal::Null));
    assert_eq!(r.unwrap_err(), DomainError::NotFound("no secret found".to_string()));
}

#[test]
fn get_user_secret_defaults_key_and_null_is_not_found() {
    let mut api = Api::new();
    authenticate(&mut api);
    let step = handle_in_message(
        &mut api,
        InMessages::GetUserSecret(InGetSecret { encryption_key: "enc".to_string(), key: None }),
        0,
    )
    .unwrap();
    let pending = match step {
        Step::Call { request, pending } => {
            // No key given: the fetch defaults to key "user".
            assert_eq!(
                request.url,
                "http://localhost:4000/api/v1/secrets/myKey/user/enc"
            );
            pending
        }
        Step::Reply(_) => panic!("expected a user secret request"),
    };
    // A remote null yields the not-found outcome, not a generic success.
    let r = handle_response(&mut api, pending, ok_response(JsonVal::Null));
    assert_eq!(r.unwrap_err(), DomainError::NotFound("no user found".to_string()));
}

#[test]
fn get_user_secret_returns_credential_pair() {
    let mut api = Api::new();
    authenticate(&mut api);
    let step = handle_in_message(
        &mut api,
        InMessages::GetUserSecret(InGetSecret {
            encryption_key: "enc".to_string(),
            key: Some("other".to_string()),
        }),
        0,
    )
    .unwrap();
    let pending = match step {
        Step::Call { request, pending } => {
            assert_eq!(
                request.url,
                "http://localhost:4000/api/v1/secrets/myKey/other/enc"
            );
            pending
        }
        Step::Reply(_) => panic!("expected a user secret request"),
    };
    let body = obj(vec![
        ("username", JsonVal::Str("u".to_string())),
        ("password", JsonVal::Str("p".to_string())),
    ]);
    let step = handle_response(&mut api, pending, ok_response(body)).unwrap();
    match step {
        Step::Reply(OutMessages::Okay(OkContent::UserSecret(user))) => {
            assert_eq!(user.username, "u");
            assert_eq!(user.password, "p");
        }
        _ => panic!("expected a credential pair"),
    }
}

#[test]
fn get_users_secret_defaults_key_and_rejects_empty() {
    let mut api = Api::new();
    authenticate(&mut api);
    let step = handle_in_message(
        &mut api,
        InMessages::GetUsersSecret(InGetSecret { encryption_key: "enc".to_string(), key: None }),
        0,
    )
    .unwrap();
    let pending = match step {
        Step::Call { request, pending } => {
            assert_eq!(
                request.url,
                "http://localhost:4000/api/v1/secrets/myKey/users/enc"
            );
            pending
        }
        Step::Reply(_) => panic!("expected a users secret request"),
    };
    let r = handle_response(&mut api, pending, ok_response(JsonVal::Arr(vec![])));
    assert_eq!(r.unwrap_err(), DomainError::NotFound("no users found".to_string()));
}

#[test]
fn send_cv_without_reference_number_changes_nothing() {
    let mut api = Api::new();
    authenticate(&mut api);
    let cv = obj(vec![("name", JsonVal::Str("x".to_string()))]);
    let r = handle_in_message(&mut api, InMessages::SendCv(cv), 0);
    assert_eq!(
        r.unwrap_err(),
        DomainError::Validation("referenceNumber is required".to_string())
    );
    // No cache insertion happened: no reference is known.
    let r = handle_in_message(
        &mut api,
        InMessages::HasCachedReference("x".to_string()),
        0,
    )
    .unwrap();
    assert!(matches!(
        r,
        Step::Reply(OutMessages::Okay(OkContent::Bool(false)))
    ));
}

#[test]
fn send_cv_rejects_non_object_and_non_string_reference() {
    let mut api = Api::new();
    authenticate(&mut api);
    let r = handle_in_message(&mut api, InMessages::SendCv(JsonVal::Null), 0);
    assert_eq!(
        r.unwrap_err(),
        DomainError::Validation("cv expected to be a object".to_string())
    );
    let cv = obj(vec![("referenceNumber", JsonVal::Num("7".to_string()))]);
    let r = handle_in_message(&mut api, InMessages::SendCv(cv), 0);
    assert_eq!(
        r.unwrap_err(),
        DomainError::Validation("referenceNumber is expected to be a string".to_string())
    );
}

#[test]
fn send_cv_caches_reference_before_posting() {
    let mut api = Api::new();
    authenticate(&mut api);
    let cv = obj(vec![("referenceNumber", JsonVal::Str("ABC123".to_string()))]);
    let step = handle_in_message(&mut api, InMessages::SendCv(cv), 50).unwrap();
    let (request, pending): (HttpRequest, Pending) = match step {
        Step::Call { request, pending } => (request, pending),
        Step::Reply(_) => panic!("expected a POST request"),
    };
    assert!(matches!(request.method, Method::Post));
    assert_eq!(request.url, "http://localhost:4000/api/v1/scraper/scanCV");
    // The body wraps the cv under a `cv` field.
    let body = request.body.expect("the POST carries a body");
    assert_eq!(
        rtcv_bridge::json::json_to_string(&body),
        "{\"cv\":{\"referenceNumber\":\"ABC123\"}}"
    );
    // The reference was cached before the POST was issued.
    let r = handle_in_message(
        &mut api,
        InMessages::HasCachedReference("ABC123".to_string()),
        50,
    )
    .unwrap();
    assert!(matches!(
        r,
        Step::Reply(OutMessages::Okay(OkContent::Bool(true)))
    ));
    // A failing POST still surfaces the remote error.
    let outcome = HttpOutcome::Response {
        status: 400,
        body: Some(obj(vec![("error", JsonVal::Str("duplicate".to_string()))])),
    };
    let r = handle_response(&mut api, pending, outcome);
    assert_eq!(r.unwrap_err(), DomainError::Api("duplicate".to_string()));
}

#[test]
fn send_cv_success_is_empty_ok() {
    let mut api = Api::new();
    authenticate(&mut api);
    let cv = obj(vec![("referenceNumber", JsonVal::Str("R1".to_string()))]);
    let step = handle_in_message(&mut api, InMessages::SendCv(cv), 0).unwrap();
    let pending = match step {
        Step::Call { pending, .. } => pending,
        Step::Reply(_) => panic!("expected a POST request"),
    };
    let body = obj(vec![("success", JsonVal::Bool(true))]);
    let step = handle_response(&mut api, pending, ok_response(body)).unwrap();
    assert!(matches!(
        step,
        Step::Reply(OutMessages::Okay(OkContent::Empty))
    ));
}

#[test]
fn set_cached_reference_inserts_without_network() {
    let mut api = Api::new();
    let r = handle_in_message(
        &mut api,
        InMessages::SetCachedReference("R9".to_string()),
        7,
    )
    .unwrap();
    assert!(matches!(r, Step::Reply(OutMessages::Okay(OkContent::Empty))));
    let r = handle_in_message(
        &mut api,
        InMessages::HasCachedReference("R9".to_string()),
        7,
    )
    .unwrap();
    assert!(matches!(
        r,
        Step::Reply(OutMessages::Okay(OkContent::Bool(true)))
    ));
}

#[test]
fn role_id_too_large_for_u64_is_rejected() {
    let mut api = Api::new();
    let step = handle_in_message(
        &mut api,
        InMessages::SetCredentials(creds("http://h", "id", "key")),
        0,
    )
    .unwrap();
    let pending = match step {
        Step::Call { pending, .. } => pending,
        Step::Reply(_) => panic!("expected a health request"),
    };
    let step = handle_response(&mut api, pending, ok_response(obj(vec![]))).unwrap();
    let pending = match step {
        Step::Call { pending, .. } => pending,
        Step::Reply(_) => panic!("expected a keyinfo request"),
    };
    // 2^64 does not fit in a u64, so the payload is malformed.
    let r = handle_response(
        &mut api,
        pending,
        ok_response(roles_body(vec!["18446744073709551616"])),
    );
    assert_eq!(
        r.unwrap_err(),
        DomainError::Auth("unexpected response body from server".to_string())
    );
    // The largest u64 is still accepted (and is not the scraper role).
    let mut api = Api::new();
    let step = handle_in_message(
        &mut api,
        InMessages::SetCredentials(creds("http://h", "id", "key")),
        0,
    )
    .unwrap();
    let pending = match step {
        Step::Call { pending, .. } => pending,
        Step::Reply(_) => panic!("expected a health request"),
    };
    let step = handle_response(&mut api, pending, ok_response(obj(vec![]))).unwrap();
    let pending = match step {
        Step::Call { pending, .. } => pending,
        Step::Reply(_) => panic!("expected a keyinfo request"),
    };
    let r = handle_response(
        &mut api,
        pending,
        ok_response(roles_body(vec!["18446744073709551615"])),
    );
    assert_eq!(
        r.unwrap_err(),
        DomainError::Auth("provided key does not have scraper role (nr 1)".to_string())
    );
}
