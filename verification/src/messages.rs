use vstd::prelude::*;

use crate::api::string_push;
use crate::json::{spec_json_string, spec_json_text, write_json_string, write_json_text, JsonVal};
use crate::rtcv_types::UserSecret;

verus! {

/// One command read from standard input, one per line.
#[derive(Debug)]
pub enum InMessages {
    SetCredentials(InSetCredentials),
    SendCv(JsonVal),
    GetSecret(InGetSecret),
    GetUsersSecret(InGetSecret),
    GetUserSecret(InGetSecret),
    SetCachedReference(String),
    HasCachedReference(String),
    Ping,
}

/// The payload of a successful response.
#[derive(Debug)]
pub enum OkContent {
    Empty,
    Secret(JsonVal),
    UserSecret(UserSecret),
    UsersSecret(Vec<UserSecret>),
    Bool(bool),
}

impl OkContent {
    pub fn into_message(self) -> (r: OutMessages)
        ensures
            r == OutMessages::Okay(self),
    {
        OutMessages::Okay(self)
    }
}

/// One response written to standard output, one per input line, plus the
/// single `Ready` line emitted at startup.
#[derive(Debug)]
pub enum OutMessages {
    Ready(String),
    Pong,
    Okay(OkContent),
    Error(String),
}

/// Credentials as supplied by a `SetCredentials` command.
#[derive(Debug, Clone, PartialEq, Eq)]
pub struct InSetCredentials {
    pub server_location: String,
    pub api_key_id: String,
    pub api_key: String,
}

impl InSetCredentials {
    /// All three fields are non-empty.
    pub open spec fn spec_valid(&self) -> bool {
        self.server_location@.len() > 0 && self.api_key_id@.len() > 0 && self.api_key@.len() > 0
    }
}

/// Arguments of the secret-fetching commands.
#[derive(Debug, Clone, PartialEq, Eq)]
pub struct InGetSecret {
    pub encryption_key: String,
    pub key: Option<String>,
}

/// The JSON text of one user credential pair.
pub open spec fn spec_user_secret_json(u: UserSecret) -> Seq<char> {
    "{\"username\":"@ + spec_json_string(u.username@) + ",\"password\":"@ + spec_json_string(
        u.password@,
    ) + "}"@
}

/// The comma-separated JSON texts of a list of credential pairs.
pub open spec fn spec_users_json(users: Seq<UserSecret>) -> Seq<char>
    decreases users.len(),
{
    if users.len() == 0 {
        Seq::empty()
    } else if users.len() == 1 {
        spec_user_secret_json(users[0])
    } else {
        spec_user_secret_json(users[0]) + seq![','] + spec_users_json(users.drop_first())
    }
}

/// The JSON text of a success payload. An empty payload is JSON `null`.
pub open spec fn spec_ok_content_json(c: OkContent) -> Seq<char> {
    match c {
        OkContent::Empty => "null"@,
        OkContent::Secret(v) => spec_json_text(v),
        OkContent::UserSecret(u) => spec_user_secret_json(u),
        OkContent::UsersSecret(users) => seq!['['] + spec_users_json(users@) + seq![']'],
        OkContent::Bool(b) => if b {
            "true"@
        } else {
            "false"@
        },
    }
}

/// The JSON line a response serializes to: a `type` tag, with the payload
/// under `content` for every variant that carries one.
pub open spec fn spec_out_message_json(m: OutMessages) -> Seq<char> {
    match m {
        OutMessages::Ready(msg) => "{\"type\":\"ready\",\"content\":"@ + spec_json_string(msg@)
            + "}"@,
        OutMessages::Pong => "{\"type\":\"pong\"}"@,
        OutMessages::Okay(c) => "{\"type\":\"ok\",\"content\":"@ + spec_ok_content_json(c) + "}"@,
        OutMessages::Error(msg) => "{\"type\":\"error\",\"content\":"@ + spec_json_string(msg@)
            + "}"@,
    }
}

proof fn lemma_users_json_push(users: Seq<UserSecret>, x: UserSecret)
    ensures
        spec_users_json(users.push(x)) == if users.len() == 0 {
            spec_user_secret_json(x)
        } else {
            spec_users_json(users) + seq![','] + spec_user_secret_json(x)
        },
    decreases users.len(),
{
    if users.len() == 0 {
        assert(users.push(x).len() == 1);
        assert(users.push(x)[0] == x);
    } else {
        assert(users.push(x)[0] == users[0]);
        assert(users.push(x).drop_first() =~= users.drop_first().push(x));
        lemma_users_json_push(users.drop_first(), x);
        if users.len() == 1 {
            assert(spec_users_json(users.push(x)) == spec_user_secret_json(users[0]) + seq![',']
                + spec_user_secret_json(x));
        } else {
            assert(spec_user_secret_json(users[0]) + seq![','] + (spec_users_json(
                users.drop_first(),
            ) + seq![','] + spec_user_secret_json(x)) =~= (spec_user_secret_json(users[0])
                + seq![','] + spec_users_json(users.drop_first())) + seq![',']
                + spec_user_secret_json(x));
        }
    }
}

/// Append the JSON text of one credential pair.
fn write_user_secret(u: &UserSecret, out: &mut String)
    ensures
        final(out)@ == old(out)@ + spec_user_secret_json(*u),
{
    out.append("{\"username\":");
    write_json_string(&u.username, out);
    out.append(",\"password\":");
    write_json_string(&u.password, out);
    out.append("}");
}

/// Append the JSON text of a success payload.
#[verifier::loop_isolation(false)]
fn write_ok_content(c: &OkContent, out: &mut String)
    ensures
        final(out)@ == old(out)@ + spec_ok_content_json(*c),
{
    match c {
        OkContent::Empty => {
            out.append("null");
        },
        OkContent::Secret(v) => {
            write_json_text(v, out);
        },
        OkContent::UserSecret(u) => {
            write_user_secret(u, out);
        },
        OkContent::UsersSecret(users) => {
            string_push(out, '[');
            let n = users.len();
            let mut i: usize = 0;
            while i < n
                invariant
                    i <= n,
                    n == users@.len(),
                    out@ == old(out)@ + seq!['['] + spec_users_json(users@.take(i as int)),
                decreases n - i,
            {
                if i > 0 {
                    string_push(out, ',');
                }
                write_user_secret(&users[i], out);
                proof {
                    lemma_users_json_push(users@.take(i as int), users@[i as int]);
                    assert(users@.take(i as int).push(users@[i as int]) =~= users@.take(i + 1));
                    assert(out@ == old(out)@ + seq!['['] + spec_users_json(users@.take(i + 1)));
                }
                i = i + 1;
            }
            string_push(out, ']');
            proof {
                assert(users@.take(n as int) =~= users@);
            }
        },
        OkContent::Bool(b) => {
            if *b {
                out.append("true");
            } else {
                out.append("false");
            }
        },
    }
}

impl OutMessages {
    /// Serialize the response as its one JSON output line.
    pub fn as_json(self) -> (r: String)
        ensures
            r@ == spec_out_message_json(self),
    {
        match self {
            OutMessages::Ready(msg) => {
                let mut out = String::from_str("{\"type\":\"ready\",\"content\":");
                write_json_string(&msg, &mut out);
                out.append("}");
                out
            },
            OutMessages::Pong => String::from_str("{\"type\":\"pong\"}"),
            OutMessages::Okay(c) => {
                let mut out = String::from_str("{\"type\":\"ok\",\"content\":");
                write_ok_content(&c, &mut out);
                out.append("}");
                out
            },
            OutMessages::Error(msg) => {
                let mut out = String::from_str("{\"type\":\"error\",\"content\":");
                write_json_string(&msg, &mut out);
                out.append("}");
                out
            },
        }
    }
}

/// The secret-lookup arguments a `content` payload denotes: a required
/// string `encryption_key` and an optional string `key` (absent or JSON
/// `null` both mean none).
pub open spec fn spec_get_secret_args_of(c: JsonVal) -> Option<InGetSecret> {
    match c.spec_get("encryption_key"@) {
        Some(JsonVal::Str(ek)) => match c.spec_get("key"@) {
            None => Some(InGetSecret { encryption_key: ek, key: None }),
            Some(JsonVal::Null) => Some(InGetSecret { encryption_key: ek, key: None }),
            Some(JsonVal::Str(k)) => Some(InGetSecret { encryption_key: ek, key: Some(k) }),
            Some(_) => None,
        },
        _ => None,
    }
}

/// The credential set a `content` payload denotes: three required string
/// fields.
pub open spec fn spec_credentials_of(c: JsonVal) -> Option<InSetCredentials> {
    match (c.spec_get("server_location"@), c.spec_get("api_key_id"@), c.spec_get("api_key"@)) {
        (Some(JsonVal::Str(sl)), Some(JsonVal::Str(id)), Some(JsonVal::Str(key))) => Some(
            InSetCredentials { server_location: sl, api_key_id: id, api_key: key },
        ),
        _ => None,
    }
}

/// The command a decoded JSON input line denotes: an object with a string
/// tag `type` and, for every command but `ping`, a payload under
/// `content`; anything else is no command.
pub open spec fn spec_in_message_of(v: JsonVal) -> Option<InMessages> {
    match v.spec_get("type"@) {
        Some(JsonVal::Str(tag)) => {
            if tag@ == "ping"@ {
                Some(InMessages::Ping)
            } else {
                match v.spec_get("content"@) {
                    None => None,
                    Some(c) => {
                        if tag@ == "set_credentials"@ {
                            match spec_credentials_of(c) {
                                Some(creds) => Some(InMessages::SetCredentials(creds)),
                                None => None,
                            }
                        } else if tag@ == "send_cv"@ {
                            Some(InMessages::SendCv(c))
                        } else if tag@ == "get_secret"@ {
                            match spec_get_secret_args_of(c) {
                                Some(args) => Some(InMessages::GetSecret(args)),
                                None => None,
                            }
                        } else if tag@ == "get_users_secret"@ {
                            match spec_get_secret_args_of(c) {
                                Some(args) => Some(InMessages::GetUsersSecret(args)),
                                None => None,
                            }
                        } else if tag@ == "get_user_secret"@ {
                            match spec_get_secret_args_of(c) {
                                Some(args) => Some(InMessages::GetUserSecret(args)),
                                None => None,
                            }
                        } else if tag@ == "set_cached_reference"@ {
                            match c {
                                JsonVal::Str(reference) => Some(
                                    InMessages::SetCachedReference(reference),
                                ),
                                _ => None,
                            }
                        } else if tag@ == "has_cached_reference"@ {
                            match c {
                                JsonVal::Str(reference) => Some(
                                    InMessages::HasCachedReference(reference),
                                ),
                                _ => None,
                            }
                        } else {
                            None
                        }
                    },
                }
            }
        },
        _ => None,
    }
}

fn get_secret_args_of_json(c: &JsonVal) -> (r: Option<InGetSecret>)
    ensures
        r == spec_get_secret_args_of(*c),
{
    let ek_key = String::from_str("encryption_key");
    let encryption_key = match c.get_field(&ek_key) {
        Some(JsonVal::Str(ek)) => ek.clone(),
        _ => {
            return None;
        },
    };
    let key_key = String::from_str("key");
    match c.get_field(&key_key) {
        None => Some(InGetSecret { encryption_key, key: None }),
        Some(JsonVal::Null) => Some(InGetSecret { encryption_key, key: None }),
        Some(JsonVal::Str(k)) => Some(InGetSecret { encryption_key, key: Some(k.clone()) }),
        Some(_) => None,
    }
}

impl InMessages {
    /// Decode one input line, already parsed as JSON, into the command it
    /// denotes.
    pub fn from_json_value(v: JsonVal) -> (r: Option<InMessages>)
        ensures
            r == spec_in_message_of(v),
    {
        let type_key = String::from_str("type");
        let tag = match v.get_field(&type_key) {
            Some(JsonVal::Str(tag)) => tag.clone(),
            _ => {
                return None;
            },
        };
        if tag == String::from_str("ping") {
            return Some(InMessages::Ping);
        }
        let content_key = String::from_str("content");
        let content = match v.take_field(&content_key) {
            Some(c) => c,
            None => {
                return None;
            },
        };
        if tag == String::from_str("set_credentials") {
            let sl_key = String::from_str("server_location");
            let id_key = String::from_str("api_key_id");
            let key_key = String::from_str("api_key");
            let server_location = match content.get_field(&sl_key) {
                Some(JsonVal::Str(sl)) => sl.clone(),
                _ => {
                    return None;
                },
            };
            let api_key_id = match content.get_field(&id_key) {
                Some(JsonVal::Str(id)) => id.clone(),
                _ => {
                    return None;
                },
            };
            let api_key = match content.get_field(&key_key) {
                Some(JsonVal::Str(k)) => k.clone(),
                _ => {
                    return None;
                },
            };
            Some(
                InMessages::SetCredentials(
                    InSetCredentials { server_location, api_key_id, api_key },
                ),
            )
        } else if tag == String::from_str("send_cv") {
            Some(InMessages::SendCv(content))
        } else if tag == String::from_str("get_secret") {
            match get_secret_args_of_json(&content) {
                Some(args) => Some(InMessages::GetSecret(args)),
                None => None,
            }
        } else if tag == String::from_str("get_users_secret") {
            match get_secret_args_of_json(&content) {
                Some(args) => Some(InMessages::GetUsersSecret(args)),
                None => None,
            }
        } else if tag == String::from_str("get_user_secret") {
            match get_secret_args_of_json(&content) {
                Some(args) => Some(InMessages::GetUserSecret(args)),
                None => None,
            }
        } else if tag == String::from_str("set_cached_reference") {
            match content {
                JsonVal::Str(reference) => Some(InMessages::SetCachedReference(reference)),
                _ => None,
            }
        } else if tag == String::from_str("has_cached_reference") {
            match content {
                JsonVal::Str(reference) => Some(InMessages::HasCachedReference(reference)),
                _ => None,
            }
        } else {
            None
        }
    }
}

} // verus!
