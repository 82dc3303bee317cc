use vstd::prelude::*;

use crate::json::{spec_parse_u64, parse_json_u64, JsonVal};
use crate::SCRAPER_ROLE;

verus! {

/// Body of a successful health probe. The remote sends a JSON object; no
/// field of it is read.
#[derive(Debug, Clone, PartialEq, Eq)]
pub struct GetStatusResponse {}

/// Body of a key-information lookup: the roles the key carries.
#[derive(Debug, Clone, PartialEq, Eq)]
pub struct ApiKeyInfo {
    pub roles: Vec<ApiRole>,
}

/// One role entry of a key-information payload.
#[derive(Debug, Clone, PartialEq, Eq)]
pub struct ApiRole {
    pub role: u64,
}

impl ApiRole {
    pub fn is_scraper(&self) -> (r: bool)
        ensures
            r == (self.role == SCRAPER_ROLE),
    {
        self.role == 1
    }
}

/// Body of a 4xx or 5xx response.
#[derive(Debug, Clone, PartialEq, Eq)]
pub struct ErrorResponse {
    pub error: String,
}

/// Body of a CV submission request.
#[derive(Debug)]
pub struct ScanCvBody {
    pub cv: JsonVal,
}

impl ScanCvBody {
    /// The JSON object this body serializes to: the CV under a `cv` field.
    pub fn into_json(self) -> (r: JsonVal)
        ensures
            r.spec_get("cv"@) == Some(self.cv),
    {
        let mut fields: Vec<(String, JsonVal)> = Vec::new();
        fields.push((String::from_str("cv"), self.cv));
        let body = JsonVal::Obj(fields);
        proof {
            assert(body.spec_get("cv"@) is Some);
        }
        body
    }
}

/// Body of a CV submission response.
#[derive(Debug, Clone, PartialEq, Eq)]
pub struct ScanCvResponse {
    pub success: bool,
}

/// A user credential pair stored in the remote secret store.
#[derive(Debug, Clone, PartialEq, Eq)]
pub struct UserSecret {
    pub username: String,
    pub password: String,
}

impl UserSecret {
    pub open spec fn spec_pair(&self) -> (Seq<char>, Seq<char>) {
        (self.username@, self.password@)
    }
}

/// The error text of a 4xx/5xx body: an object with a string field
/// `error`.
pub open spec fn spec_error_response_of(v: JsonVal) -> Option<Seq<char>> {
    match v.spec_get("error"@) {
        Some(JsonVal::Str(s)) => Some(s@),
        _ => None,
    }
}

impl ErrorResponse {
    /// Decode a 4xx/5xx body.
    pub fn of_json(v: &JsonVal) -> (r: Option<ErrorResponse>)
        ensures
            match r {
                Some(e) => spec_error_response_of(*v) == Some(e.error@),
                None => spec_error_response_of(*v) is None,
            },
    {
        let key = String::from_str("error");
        match v.get_field(&key) {
            Some(JsonVal::Str(s)) => Some(ErrorResponse { error: s.clone() }),
            _ => None,
        }
    }
}

impl GetStatusResponse {
    /// Decode a health-probe body: any JSON object.
    pub fn of_json(v: &JsonVal) -> (r: Option<GetStatusResponse>)
        ensures
            r is Some <==> v.spec_is_object(),
    {
        match v {
            JsonVal::Obj(_) => Some(GetStatusResponse {  }),
            _ => None,
        }
    }
}

/// The role id one element of the `roles` list denotes: an object whose
/// `role` field is a JSON integer that fits in a `u64`.
pub open spec fn spec_role_of(v: JsonVal) -> Option<u64> {
    match v.spec_get("role"@) {
        Some(JsonVal::Num(raw)) => spec_parse_u64(vstd::utf8::encode_utf8(raw@)),
        _ => None,
    }
}

/// The role ids a `roles` list denotes; `None` as soon as one element is
/// malformed.
pub open spec fn spec_roles_of(elems: Seq<JsonVal>) -> Option<Seq<u64>>
    decreases elems.len(),
{
    if elems.len() == 0 {
        Some(Seq::empty())
    } else {
        match spec_role_of(elems[0]) {
            None => None,
            Some(r) => match spec_roles_of(elems.drop_first()) {
                None => None,
                Some(rest) => Some(seq![r] + rest),
            },
        }
    }
}

/// Some role in the list is the scraper role.
pub open spec fn spec_has_scraper_role(roles: Seq<u64>) -> bool {
    exists|i: int| 0 <= i < roles.len() && roles[i] == SCRAPER_ROLE
}

/// The role ids a key-information body denotes: an object whose `roles`
/// field is a list of well-formed role entries.
pub open spec fn spec_key_info_of(v: JsonVal) -> Option<Seq<u64>> {
    match v.spec_get("roles"@) {
        Some(JsonVal::Arr(elems)) => spec_roles_of(elems@),
        _ => None,
    }
}

impl ApiKeyInfo {
    /// The role ids this value carries.
    pub open spec fn spec_roles(&self) -> Seq<u64> {
        self.roles@.map_values(|a: ApiRole| a.role)
    }

    /// Decode a key-information body.
    #[verifier::loop_isolation(false)]
    pub fn of_json(v: &JsonVal) -> (r: Option<ApiKeyInfo>)
        ensures
            match r {
                Some(info) => spec_key_info_of(*v) == Some(info.spec_roles()),
                None => spec_key_info_of(*v) is None,
            },
    {
        let key = String::from_str("roles");
        let elems = match v.get_field(&key) {
            Some(JsonVal::Arr(elems)) => elems,
            _ => {
                return None;
            },
        };
        let n = elems.len();
        let mut roles: Vec<ApiRole> = Vec::new();
        let mut i: usize = 0;
        proof {
            assert(elems@.skip(0) =~= elems@);
            if spec_roles_of(elems@) is Some {
                assert(roles@.map_values(|a: ApiRole| a.role) + spec_roles_of(elems@).unwrap()
                    =~= spec_roles_of(elems@).unwrap());
            }
        }
        while i < n
            invariant
                i <= n,
                roles@.len() == i,
                match spec_roles_of(elems@.skip(i as int)) {
                    Some(rest) => spec_roles_of(elems@) == Some(
                        roles@.map_values(|a: ApiRole| a.role) + rest,
                    ),
                    None => spec_roles_of(elems@) is None,
                },
            decreases n - i,
        {
            proof {
                assert(elems@.skip(i as int)[0] == elems@[i as int]);
                assert(elems@.skip(i as int).drop_first() =~= elems@.skip(i + 1));
            }
            let role_key = String::from_str("role");
            let role = match elems[i].get_field(&role_key) {
                Some(JsonVal::Num(raw)) => match parse_json_u64(raw) {
                    Some(role) => role,
                    None => {
                        return None;
                    },
                },
                _ => {
                    return None;
                },
            };
            roles.push(ApiRole { role });
            proof {
                assert(roles@.map_values(|a: ApiRole| a.role) =~= roles@.drop_last().map_values(
                    |a: ApiRole| a.role,
                ).push(role));
                if spec_roles_of(elems@.skip(i + 1)) is Some {
                    assert(roles@.drop_last().map_values(|a: ApiRole| a.role) + (seq![role]
                        + spec_roles_of(elems@.skip(i + 1)).unwrap()) =~= roles@.map_values(
                        |a: ApiRole| a.role,
                    ) + spec_roles_of(elems@.skip(i + 1)).unwrap());
                }
            }
            i = i + 1;
        }
        proof {
            assert(elems@.skip(n as int).len() == 0);
            assert(roles@.map_values(|a: ApiRole| a.role) + Seq::<u64>::empty() =~= roles@.map_values(
                |a: ApiRole| a.role,
            ));
        }
        Some(ApiKeyInfo { roles })
    }

    /// Whether some role of the key is the scraper role.
    #[verifier::loop_isolation(false)]
    pub fn has_scraper_role(&self) -> (r: bool)
        ensures
            r == spec_has_scraper_role(self.spec_roles()),
    {
        let n = self.roles.len();
        let mut i: usize = 0;
        while i < n
            invariant
                i <= n,
                forall|j: int| 0 <= j < i ==> self.spec_roles()[j] != SCRAPER_ROLE,
            decreases n - i,
        {
            if self.roles[i].is_scraper() {
                proof {
                    assert(self.spec_roles()[i as int] == SCRAPER_ROLE);
                }
                return true;
            }
            i = i + 1;
        }
        false
    }
}

impl ScanCvResponse {
    /// The `success` flag of a CV submission body: an object with a boolean
    /// field `success`.
    pub open spec fn spec_of(v: JsonVal) -> Option<bool> {
        match v.spec_get("success"@) {
            Some(JsonVal::Bool(b)) => Some(b),
            _ => None,
        }
    }

    /// Decode a CV submission response body.
    pub fn of_json(v: &JsonVal) -> (r: Option<ScanCvResponse>)
        ensures
            match r {
                Some(s) => Self::spec_of(*v) == Some(s.success),
                None => Self::spec_of(*v) is None,
            },
    {
        let key = String::from_str("success");
        match v.get_field(&key) {
            Some(JsonVal::Bool(b)) => Some(ScanCvResponse { success: *b }),
            _ => None,
        }
    }
}

/// The credential pair one user-secret value denotes: an object with string
/// fields `username` and `password`.
pub open spec fn spec_user_secret_of(v: JsonVal) -> Option<(Seq<char>, Seq<char>)> {
    match (v.spec_get("username"@), v.spec_get("password"@)) {
        (Some(JsonVal::Str(u)), Some(JsonVal::Str(p))) => Some((u@, p@)),
        _ => None,
    }
}

impl UserSecret {
    /// Decode one user-secret value.
    pub fn of_json(v: &JsonVal) -> (r: Option<UserSecret>)
        ensures
            match r {
                Some(u) => spec_user_secret_of(*v) == Some(u.spec_pair()),
                None => spec_user_secret_of(*v) is None,
            },
    {
        let username_key = String::from_str("username");
        let password_key = String::from_str("password");
        let username = match v.get_field(&username_key) {
            Some(JsonVal::Str(u)) => u.clone(),
            _ => {
                return None;
            },
        };
        match v.get_field(&password_key) {
            Some(JsonVal::Str(p)) => Some(UserSecret { username, password: p.clone() }),
            _ => None,
        }
    }
}

/// The credential pairs a list of user-secret values denotes; `None` as
/// soon as one element is malformed.
pub open spec fn spec_user_secrets_of(elems: Seq<JsonVal>) -> Option<Seq<(Seq<char>, Seq<char>)>>
    decreases elems.len(),
{
    if elems.len() == 0 {
        Some(Seq::empty())
    } else {
        match spec_user_secret_of(elems[0]) {
            None => None,
            Some(u) => match spec_user_secrets_of(elems.drop_first()) {
                None => None,
                Some(rest) => Some(seq![u] + rest),
            },
        }
    }
}

/// Decode a list of user secrets from a JSON array value.
#[verifier::loop_isolation(false)]
pub fn user_secrets_of_json(v: &JsonVal) -> (r: Option<Vec<UserSecret>>)
    ensures
        match r {
            Some(users) => match v {
                JsonVal::Arr(elems) => spec_user_secrets_of(elems@) == Some(
                    users@.map_values(|u: UserSecret| u.spec_pair()),
                ),
                _ => false,
            },
            None => match v {
                JsonVal::Arr(elems) => spec_user_secrets_of(elems@) is None,
                _ => true,
            },
        },
{
    let elems = match v {
        JsonVal::Arr(elems) => elems,
        _ => {
            return None;
        },
    };
    let n = elems.len();
    let mut users: Vec<UserSecret> = Vec::new();
    let mut i: usize = 0;
    proof {
        assert(elems@.skip(0) =~= elems@);
        if spec_user_secrets_of(elems@) is Some {
            assert(users@.map_values(|u: UserSecret| u.spec_pair()) + spec_user_secrets_of(elems@).unwrap()
                =~= spec_user_secrets_of(elems@).unwrap());
        }
    }
    while i < n
        invariant
            i <= n,
            users@.len() == i,
            match spec_user_secrets_of(elems@.skip(i as int)) {
                Some(rest) => spec_user_secrets_of(elems@) == Some(
                    users@.map_values(|u: UserSecret| u.spec_pair()) + rest,
                ),
                None => spec_user_secrets_of(elems@) is None,
            },
        decreases n - i,
    {
        proof {
            assert(elems@.skip(i as int)[0] == elems@[i as int]);
            assert(elems@.skip(i as int).drop_first() =~= elems@.skip(i + 1));
        }
        let user = match UserSecret::of_json(&elems[i]) {
            Some(user) => user,
            None => {
                return None;
            },
        };
        let ghost pair = user.spec_pair();
        users.push(user);
        proof {
            assert(users@.map_values(|u: UserSecret| u.spec_pair()) =~= users@.drop_last().map_values(
                |u: UserSecret| u.spec_pair(),
            ).push(pair));
            if spec_user_secrets_of(elems@.skip(i + 1)) is Some {
                assert(users@.drop_last().map_values(|u: UserSecret| u.spec_pair()) + (seq![pair]
                    + spec_user_secrets_of(elems@.skip(i + 1)).unwrap()) =~= users@.map_values(
                    |u: UserSecret| u.spec_pair(),
                ) + spec_user_secrets_of(elems@.skip(i + 1)).unwrap());
            }
        }
        i = i + 1;
    }
    proof {
        assert(elems@.skip(n as int).len() == 0);
        assert(users@.map_values(|u: UserSecret| u.spec_pair()) + Seq::<(Seq<char>, Seq<char>)>::empty()
            =~= users@.map_values(|u: UserSecret| u.spec_pair()));
    }
    Some(users)
}

} // verus!
