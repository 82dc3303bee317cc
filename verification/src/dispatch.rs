use vstd::prelude::*;

use crate::api::{
    auth_header_of, build_request_with, derive_auth_header, interpret_response,
    spec_credentials_error, spec_interpret_err, spec_outcome_err_message, spec_outcome_is_ok,
    spec_outcome_value, spec_secret_path, secret_path, Api,
};
use crate::cache::{fresh_at, stale_at};
use crate::errors::DomainError;
use crate::http::{HttpOutcome, HttpRequest, Method};
use crate::json::JsonVal;
use crate::messages::{InMessages, InSetCredentials, OkContent, OutMessages};
use crate::rtcv_types::{
    spec_has_scraper_role, spec_key_info_of, spec_user_secret_of, spec_user_secrets_of,
    user_secrets_of_json, ApiKeyInfo, GetStatusResponse, ScanCvBody, ScanCvResponse, UserSecret,
};
use crate::SCRAPER_ROLE;

verus! {

/// What the dispatcher is waiting for after issuing a request. The two
/// credential-validation steps carry the staged credentials and their
/// derived header; they are committed to the store only once every check
/// has passed.
#[derive(Debug)]
pub enum Pending {
    Health { credentials: InSetCredentials, auth_header: String },
    KeyInfo { credentials: InSetCredentials, auth_header: String },
    Secret,
    UsersSecret,
    UserSecret,
    SendCv,
}

/// What the caller must do next: write the one reply line, or perform the
/// one outbound request and hand its outcome back.
#[derive(Debug)]
pub enum Step {
    Reply(OutMessages),
    Call { request: HttpRequest, pending: Pending },
}

/// A secret payload that counts as absent: JSON null or an empty
/// collection.
pub open spec fn spec_secret_absent(v: JsonVal) -> bool {
    match v {
        JsonVal::Null => true,
        JsonVal::Arr(elems) => elems@.len() == 0,
        JsonVal::Obj(fields) => fields@.len() == 0,
        _ => false,
    }
}

/// The startup line written before the first command is read.
pub fn ready_message() -> (r: OutMessages)
    ensures
        r matches OutMessages::Ready(m) && m@ == "waiting for credentials"@,
{
    OutMessages::Ready(String::from_str("waiting for credentials"))
}

/// The single response to an input line that did not parse as a command.
pub fn invalid_input_response(detail: &String) -> (r: OutMessages)
    ensures
        r matches OutMessages::Error(m) && m@ == "invalid input: "@ + detail@,
{
    let mut m = String::from_str("invalid input: ");
    m.append(detail.as_str());
    OutMessages::Error(m)
}

/// The single response a failed command yields.
pub fn failure_response(e: &DomainError) -> (r: OutMessages)
    ensures
        r matches OutMessages::Error(m) && m@ == e.spec_message(),
{
    OutMessages::Error(e.message())
}

/// Handle one command: answer immediately, or stage the one outbound
/// request the command needs. `now` is the current time in seconds.
pub fn handle_in_message(api: &mut Api, input: InMessages, now: u64) -> (r: Result<
    Step,
    DomainError,
>)
    requires
        old(api).wf(),
    ensures
        final(api).wf(),
        match input {
            InMessages::Ping => *final(api) == *old(api) && (r matches Ok(
                Step::Reply(OutMessages::Pong),
            )),
            InMessages::SetCredentials(c) => *final(api) == *old(api) && (if !c.spec_valid() {
                r matches Err(DomainError::Validation(m)) && m@ == spec_credentials_error(c)
            } else {
                r matches Ok(Step::Call { request, pending }) && request.method == Method::Get
                    && request.url@ == c.server_location@ + "/api/v1/health"@ && request.auth_header@
                    == auth_header_of(c.api_key_id@, c.api_key@) && request.body is None && (
                pending matches Pending::Health { credentials, auth_header } && credentials == c
                    && auth_header@ == auth_header_of(c.api_key_id@, c.api_key@))
            }),
            InMessages::GetSecret(args) => *final(api) == *old(api) && (match args.key {
                None => r matches Err(DomainError::Validation(m)) && m@ == "key is required"@,
                Some(k) => match old(api).spec_credentials() {
                    None => r matches Err(e) && e == DomainError::NotAuthenticated,
                    Some(c) => r matches Ok(Step::Call { request, pending }) && request.method
                        == Method::Get && request.url@ == c.server_location@ + spec_secret_path(
                        k@,
                        args.encryption_key@,
                    ) && request.auth_header@ == old(api).spec_auth_header() && request.body is None
                        && pending is Secret,
                },
            }),
            InMessages::GetUsersSecret(args) => *final(api) == *old(api) && (match old(api).spec_credentials() {
                None => r matches Err(e) && e == DomainError::NotAuthenticated,
                Some(c) => r matches Ok(Step::Call { request, pending }) && request.method
                    == Method::Get && request.url@ == c.server_location@ + spec_secret_path(
                    match args.key {
                        Some(k) => k@,
                        None => "users"@,
                    },
                    args.encryption_key@,
                ) && request.auth_header@ == old(api).spec_auth_header() && request.body is None
                    && pending is UsersSecret,
            }),
            InMessages::GetUserSecret(args) => *final(api) == *old(api) && (match old(api).spec_credentials() {
                None => r matches Err(e) && e == DomainError::NotAuthenticated,
                Some(c) => r matches Ok(Step::Call { request, pending }) && request.method
                    == Method::Get && request.url@ == c.server_location@ + spec_secret_path(
                    match args.key {
                        Some(k) => k@,
                        None => "user"@,
                    },
                    args.encryption_key@,
                ) && request.auth_header@ == old(api).spec_auth_header() && request.body is None
                    && pending is UserSecret,
            }),
            InMessages::SendCv(cv) => match cv.spec_get("referenceNumber"@) {
                Some(JsonVal::Str(reference)) => final(api).cache@ == old(api).cache@.insert(
                    reference@,
                    now,
                ) && final(api).credentials == old(api).credentials && final(api).auth_header_value
                    == old(api).auth_header_value && (match old(api).spec_credentials() {
                    None => r matches Err(e) && e == DomainError::NotAuthenticated,
                    Some(c) => r matches Ok(Step::Call { request, pending }) && request.method
                        == Method::Post && request.url@ == c.server_location@
                        + "/api/v1/scraper/scanCV"@ && request.auth_header@ == old(api).spec_auth_header() && (request.body matches Some(b) && b.spec_get("cv"@)
                        == Some(cv)) && pending is SendCv,
                }),
                _ => *final(api) == *old(api) && (r matches Err(DomainError::Validation(m)) && m@
                    == (if !cv.spec_is_object() {
                    "cv expected to be a object"@
                } else if cv.spec_get("referenceNumber"@) is None {
                    "referenceNumber is required"@
                } else {
                    "referenceNumber is expected to be a string"@
                })),
            },
            InMessages::SetCachedReference(reference) => final(api).cache@ == old(api).cache@.insert(reference@, now) && final(api).credentials == old(api).credentials
                && final(api).auth_header_value == old(api).auth_header_value && (r matches Ok(
                Step::Reply(OutMessages::Okay(OkContent::Empty)),
            )),
            InMessages::HasCachedReference(reference) => final(api).cache@ == (if stale_at(
                old(api).cache@,
                reference@,
                now,
            ) {
                old(api).cache@.remove(reference@)
            } else {
                old(api).cache@
            }) && final(api).credentials == old(api).credentials && final(api).auth_header_value
                == old(api).auth_header_value && (r matches Ok(
                Step::Reply(OutMessages::Okay(OkContent::Bool(present))),
            ) && present == fresh_at(old(api).cache@, reference@, now)),
        },
{
    match input {
        InMessages::Ping => Ok(Step::Reply(OutMessages::Pong)),
        InMessages::SetCredentials(c) => {
            if c.server_location.as_str().is_empty() {
                return Err(
                    DomainError::Validation(String::from_str("server_location cannot be empty")),
                );
            }
            if c.api_key_id.as_str().is_empty() {
                return Err(
                    DomainError::Validation(String::from_str("api_key_id cannot be empty")),
                );
            }
            if c.api_key.as_str().is_empty() {
                return Err(DomainError::Validation(String::from_str("api_key cannot be empty")));
            }
            let auth_header = derive_auth_header(&c.api_key_id, &c.api_key);
            let path = String::from_str("/api/v1/health");
            let request = build_request_with(
                &c.server_location,
                &auth_header,
                Method::Get,
                &path,
                None,
            );
            Ok(Step::Call { request, pending: Pending::Health { credentials: c, auth_header } })
        },
        InMessages::GetSecret(args) => {
            let key = match args.key {
                Some(k) => k,
                None => {
                    return Err(DomainError::Validation(String::from_str("key is required")));
                },
            };
            let path = secret_path(&key, &args.encryption_key);
            let request = api.build_request(Method::Get, &path, None)?;
            Ok(Step::Call { request, pending: Pending::Secret })
        },
        InMessages::GetUsersSecret(args) => {
            let key = match args.key {
                Some(k) => k,
                None => String::from_str("users"),
            };
            let path = secret_path(&key, &args.encryption_key);
            let request = api.build_request(Method::Get, &path, None)?;
            Ok(Step::Call { request, pending: Pending::UsersSecret })
        },
        InMessages::GetUserSecret(args) => {
            let key = match args.key {
                Some(k) => k,
                None => String::from_str("user"),
            };
            let path = secret_path(&key, &args.encryption_key);
            let request = api.build_request(Method::Get, &path, None)?;
            Ok(Step::Call { request, pending: Pending::UserSecret })
        },
        InMessages::SendCv(cv) => {
            match &cv {
                JsonVal::Obj(_) => (),
                _ => {
                    return Err(
                        DomainError::Validation(String::from_str("cv expected to be a object")),
                    );
                },
            }
            let reference_key = String::from_str("referenceNumber");
            let reference = match cv.get_field(&reference_key) {
                None => {
                    return Err(
                        DomainError::Validation(String::from_str("referenceNumber is required")),
                    );
                },
                Some(JsonVal::Str(reference)) => reference.clone(),
                Some(_) => {
                    return Err(
                        DomainError::Validation(
                            String::from_str("referenceNumber is expected to be a string"),
                        ),
                    );
                },
            };
            api.cache.insert(reference, now);
            let body = ScanCvBody { cv }.into_json();
            let path = String::from_str("/api/v1/scraper/scanCV");
            let request = api.build_request(Method::Post, &path, Some(body))?;
            Ok(Step::Call { request, pending: Pending::SendCv })
        },
        InMessages::SetCachedReference(reference) => {
            api.cache.insert(reference, now);
            Ok(Step::Reply(OutMessages::Okay(OkContent::Empty)))
        },
        InMessages::HasCachedReference(reference) => {
            let present = api.cache.contains(&reference, now);
            Ok(Step::Reply(OutMessages::Okay(OkContent::Bool(present))))
        },
    }
}

/// The follow-up of a successful health probe while validating new
/// credentials: the key-information request, still built from the staged
/// values.
pub fn respond_health(
    credentials: InSetCredentials,
    auth_header: String,
    outcome: HttpOutcome,
) -> (r: Result<Step, DomainError>)
    ensures
        if spec_outcome_is_ok(outcome) {
            if spec_outcome_value(outcome).spec_is_object() {
                r matches Ok(Step::Call { request, pending: p }) && request.method == Method::Get
                    && request.url@ == credentials.server_location@ + "/api/v1/auth/keyinfo"@
                    && request.auth_header@ == auth_header@ && request.body is None && (
                p matches Pending::KeyInfo { credentials: c2, auth_header: h2 } && c2 == credentials
                    && h2 == auth_header)
            } else {
                r matches Err(DomainError::Auth(m)) && m@ == DomainError::Protocol.spec_message()
            }
        } else {
            r matches Err(DomainError::Auth(m)) && m@ == spec_outcome_err_message(outcome)
        },
{
    let value = match interpret_response(outcome) {
        Ok(v) => v,
        Err(e) => {
            return Err(DomainError::Auth(e.message()));
        },
    };
    if GetStatusResponse::of_json(&value).is_some() {
        let path = String::from_str("/api/v1/auth/keyinfo");
        let request = build_request_with(
            &credentials.server_location,
            &auth_header,
            Method::Get,
            &path,
            None,
        );
        Ok(Step::Call { request, pending: Pending::KeyInfo { credentials, auth_header } })
    } else {
        Err(DomainError::Auth(DomainError::Protocol.message()))
    }
}

/// The follow-up of a key-information response while validating new
/// credentials: only here, with every check passed, are the staged
/// credentials committed to the store.
#[verifier::spinoff_prover]
#[verifier::rlimit(100)]
pub fn respond_key_info(api: &mut Api, credentials: InSetCredentials, outcome: HttpOutcome) -> (r:
    Result<Step, DomainError>)
    requires
        old(api).wf(),
    ensures
        final(api).wf(),
        if spec_outcome_is_ok(outcome) {
            match spec_key_info_of(spec_outcome_value(outcome)) {
                None => *final(api) == *old(api) && (r matches Err(DomainError::Auth(m)) && m@
                    == DomainError::Protocol.spec_message()),
                Some(roles) => if spec_has_scraper_role(roles) {
                    if credentials.spec_valid() {
                        r matches Ok(Step::Reply(OutMessages::Okay(OkContent::Empty))) && final(api).spec_credentials() == Some(credentials) && final(api).spec_auth_header()
                            == auth_header_of(credentials.api_key_id@, credentials.api_key@)
                            && final(api).cache == old(api).cache
                    } else {
                        *final(api) == *old(api) && (r matches Err(DomainError::Validation(m)) && m@
                            == spec_credentials_error(credentials))
                    }
                } else {
                    *final(api) == *old(api) && (r matches Err(DomainError::Auth(m)) && m@
                        == "provided key does not have scraper role (nr 1)"@)
                },
            }
        } else {
            *final(api) == *old(api) && (r matches Err(DomainError::Auth(m)) && m@
                == spec_outcome_err_message(outcome))
        },
{
    let value = match interpret_response(outcome) {
        Ok(v) => v,
        Err(e) => {
            return Err(DomainError::Auth(e.message()));
        },
    };
    let info = match ApiKeyInfo::of_json(&value) {
        Some(info) => info,
        None => {
            return Err(DomainError::Auth(DomainError::Protocol.message()));
        },
    };
    if !info.has_scraper_role() {
        return Err(
            DomainError::Auth(String::from_str("provided key does not have scraper role (nr 1)")),
        );
    }
    proof {
        assert(spec_key_info_of(spec_outcome_value(outcome)) == Some(info.spec_roles()));
        assert(spec_has_scraper_role(info.spec_roles()));
    }
    match api.set_credentials(credentials) {
        Err(e) => Err(e),
        Ok(()) => Ok(Step::Reply(OutMessages::Okay(OkContent::Empty))),
    }
}

/// The reply a secret lookup yields: the payload, unless it is absent.
pub fn respond_secret(outcome: HttpOutcome) -> (r: Result<Step, DomainError>)
    ensures
        if spec_outcome_is_ok(outcome) {
            if spec_secret_absent(spec_outcome_value(outcome)) {
                r matches Err(DomainError::NotFound(m)) && m@ == "no secret found"@
            } else {
                r matches Ok(Step::Reply(OutMessages::Okay(OkContent::Secret(v)))) && v
                    == spec_outcome_value(outcome)
            }
        } else {
            r matches Err(e) && spec_interpret_err(outcome, e)
        },
{
    let value = match interpret_response(outcome) {
        Ok(v) => v,
        Err(e) => {
            return Err(e);
        },
    };
    let absent = match &value {
        JsonVal::Null => true,
        JsonVal::Arr(elems) => elems.len() == 0,
        JsonVal::Obj(fields) => fields.len() == 0,
        _ => false,
    };
    if absent {
        return Err(DomainError::NotFound(String::from_str("no secret found")));
    }
    Ok(Step::Reply(OutMessages::Okay(OkContent::Secret(value))))
}

/// The reply a single-user secret lookup yields: a remote `null` is the
/// absent case, any other payload must be a credential pair.
pub fn respond_user_secret(outcome: HttpOutcome) -> (r: Result<Step, DomainError>)
    ensures
        if spec_outcome_is_ok(outcome) {
            if spec_outcome_value(outcome) is Null {
                r matches Err(DomainError::NotFound(m)) && m@ == "no user found"@
            } else {
                match spec_user_secret_of(spec_outcome_value(outcome)) {
                    Some(pair) => r matches Ok(
                        Step::Reply(OutMessages::Okay(OkContent::UserSecret(u))),
                    ) && u.spec_pair() == pair,
                    None => r matches Err(e) && e == DomainError::Protocol,
                }
            }
        } else {
            r matches Err(e) && spec_interpret_err(outcome, e)
        },
{
    let value = match interpret_response(outcome) {
        Ok(v) => v,
        Err(e) => {
            return Err(e);
        },
    };
    match &value {
        JsonVal::Null => {
            return Err(DomainError::NotFound(String::from_str("no user found")));
        },
        _ => (),
    }
    match UserSecret::of_json(&value) {
        Some(user) => Ok(Step::Reply(OutMessages::Okay(OkContent::UserSecret(user)))),
        None => Err(DomainError::Protocol),
    }
}

/// The reply a user-list secret lookup yields: a remote `null` or an empty
/// list is the absent case, any other payload must be a list of credential
/// pairs.
pub fn respond_users_secret(outcome: HttpOutcome) -> (r: Result<Step, DomainError>)
    ensures
        if spec_outcome_is_ok(outcome) {
            if spec_outcome_value(outcome) is Null {
                r matches Err(DomainError::NotFound(m)) && m@ == "no users found"@
            } else {
                match spec_outcome_value(outcome) {
                    JsonVal::Arr(elems) => match spec_user_secrets_of(elems@) {
                        Some(pairs) => if pairs.len() == 0 {
                            r matches Err(DomainError::NotFound(m)) && m@ == "no users found"@
                        } else {
                            r matches Ok(
                                Step::Reply(OutMessages::Okay(OkContent::UsersSecret(users))),
                            ) && users@.map_values(|u: UserSecret| u.spec_pair()) == pairs
                        },
                        None => r matches Err(e) && e == DomainError::Protocol,
                    },
                    _ => r matches Err(e) && e == DomainError::Protocol,
                }
            }
        } else {
            r matches Err(e) && spec_interpret_err(outcome, e)
        },
{
    let value = match interpret_response(outcome) {
        Ok(v) => v,
        Err(e) => {
            return Err(e);
        },
    };
    match &value {
        JsonVal::Null => {
            return Err(DomainError::NotFound(String::from_str("no users found")));
        },
        _ => (),
    }
    match user_secrets_of_json(&value) {
        Some(users) => {
            if users.len() == 0 {
                return Err(DomainError::NotFound(String::from_str("no users found")));
            }
            Ok(Step::Reply(OutMessages::Okay(OkContent::UsersSecret(users))))
        },
        None => Err(DomainError::Protocol),
    }
}

/// The reply a CV submission yields: the body must carry the expected
/// success flag, whose value the bridge does not act on.
pub fn respond_send_cv(outcome: HttpOutcome) -> (r: Result<Step, DomainError>)
    ensures
        if spec_outcome_is_ok(outcome) {
            match ScanCvResponse::spec_of(spec_outcome_value(outcome)) {
                Some(_) => r matches Ok(Step::Reply(OutMessages::Okay(OkContent::Empty))),
                None => r matches Err(e) && e == DomainError::Protocol,
            }
        } else {
            r matches Err(e) && spec_interpret_err(outcome, e)
        },
{
    let value = match interpret_response(outcome) {
        Ok(v) => v,
        Err(e) => {
            return Err(e);
        },
    };
    match ScanCvResponse::of_json(&value) {
        Some(_) => Ok(Step::Reply(OutMessages::Okay(OkContent::Empty))),
        None => Err(DomainError::Protocol),
    }
}

/// Handle the outcome of the one outbound request a command staged:
/// answer, stage the follow-up request of a credential validation, or
/// surface the failure.
pub fn handle_response(api: &mut Api, pending: Pending, outcome: HttpOutcome) -> (r: Result<
    Step,
    DomainError,
>)
    requires
        old(api).wf(),
    ensures
        final(api).wf(),
        match pending {
            Pending::Health { credentials: c, auth_header: h } => *final(api) == *old(api) && (
            if spec_outcome_is_ok(outcome) {
                if spec_outcome_value(outcome).spec_is_object() {
                    r matches Ok(Step::Call { request, pending: p }) && request.method
                        == Method::Get && request.url@ == c.server_location@
                        + "/api/v1/auth/keyinfo"@ && request.auth_header@ == h@
                        && request.body is None && (p matches Pending::KeyInfo {
                        credentials: c2,
                        auth_header: h2,
                    } && c2 == c && h2 == h)
                } else {
                    r matches Err(DomainError::Auth(m)) && m@
                        == DomainError::Protocol.spec_message()
                }
            } else {
                r matches Err(DomainError::Auth(m)) && m@ == spec_outcome_err_message(outcome)
            }),
            Pending::KeyInfo { credentials: c, auth_header: h } => if spec_outcome_is_ok(
                outcome,
            ) {
                match spec_key_info_of(spec_outcome_value(outcome)) {
                    None => *final(api) == *old(api) && (r matches Err(DomainError::Auth(m)) && m@
                        == DomainError::Protocol.spec_message()),
                    Some(roles) => if spec_has_scraper_role(roles) {
                        if c.spec_valid() {
                            r matches Ok(Step::Reply(OutMessages::Okay(OkContent::Empty))) && final(api).spec_credentials() == Some(c) && final(api).spec_auth_header()
                                == auth_header_of(c.api_key_id@, c.api_key@) && final(api).cache
                                == old(api).cache
                        } else {
                            *final(api) == *old(api) && (r matches Err(DomainError::Validation(m))
                                && m@ == spec_credentials_error(c))
                        }
                    } else {
                        *final(api) == *old(api) && (r matches Err(DomainError::Auth(m)) && m@
                            == "provided key does not have scraper role (nr 1)"@)
                    },
                }
            } else {
                *final(api) == *old(api) && (r matches Err(DomainError::Auth(m)) && m@
                    == spec_outcome_err_message(outcome))
            },
            Pending::Secret => *final(api) == *old(api) && (if spec_outcome_is_ok(outcome) {
                if spec_secret_absent(spec_outcome_value(outcome)) {
                    r matches Err(DomainError::NotFound(m)) && m@ == "no secret found"@
                } else {
                    r matches Ok(Step::Reply(OutMessages::Okay(OkContent::Secret(v)))) && v
                        == spec_outcome_value(outcome)
                }
            } else {
                r matches Err(e) && spec_interpret_err(outcome, e)
            }),
            Pending::UserSecret => *final(api) == *old(api) && (if spec_outcome_is_ok(outcome) {
                if spec_outcome_value(outcome) is Null {
                    r matches Err(DomainError::NotFound(m)) && m@ == "no user found"@
                } else {
                    match spec_user_secret_of(spec_outcome_value(outcome)) {
                        Some(pair) => r matches Ok(
                            Step::Reply(OutMessages::Okay(OkContent::UserSecret(u))),
                        ) && u.spec_pair() == pair,
                        None => r matches Err(e) && e == DomainError::Protocol,
                    }
                }
            } else {
                r matches Err(e) && spec_interpret_err(outcome, e)
            }),
            Pending::UsersSecret => *final(api) == *old(api) && (if spec_outcome_is_ok(outcome) {
                if spec_outcome_value(outcome) is Null {
                    r matches Err(DomainError::NotFound(m)) && m@ == "no users found"@
                } else {
                    match spec_outcome_value(outcome) {
                        JsonVal::Arr(elems) => match spec_user_secrets_of(elems@) {
                            Some(pairs) => if pairs.len() == 0 {
                                r matches Err(DomainError::NotFound(m)) && m@ == "no users found"@
                            } else {
                                r matches Ok(
                                    Step::Reply(OutMessages::Okay(OkContent::UsersSecret(users))),
                                ) && users@.map_values(|u: UserSecret| u.spec_pair()) == pairs
                            },
                            None => r matches Err(e) && e == DomainError::Protocol,
                        },
                        _ => r matches Err(e) && e == DomainError::Protocol,
                    }
                }
            } else {
                r matches Err(e) && spec_interpret_err(outcome, e)
            }),
            Pending::SendCv => *final(api) == *old(api) && (if spec_outcome_is_ok(outcome) {
                match ScanCvResponse::spec_of(spec_outcome_value(outcome)) {
                    Some(_) => r matches Ok(Step::Reply(OutMessages::Okay(OkContent::Empty))),
                    None => r matches Err(e) && e == DomainError::Protocol,
                }
            } else {
                r matches Err(e) && spec_interpret_err(outcome, e)
            }),
        },
{
    match pending {
        Pending::Health { credentials, auth_header } => respond_health(
            credentials,
            auth_header,
            outcome,
        ),
        Pending::KeyInfo { credentials, auth_header: _ } => respond_key_info(
            api,
            credentials,
            outcome,
        ),
        Pending::Secret => respond_secret(outcome),
        Pending::UserSecret => respond_user_secret(outcome),
        Pending::UsersSecret => respond_users_secret(outcome),
        Pending::SendCv => respond_send_cv(outcome),
    }
}

} // verus!
