//! Who is calling and what they may do: credentials read from request
//! headers, configured API keys, and scope-based permissions.

use vstd::prelude::*;
use vstd::string::*;
use crate::auth::AuthClaims;
use crate::error::ApiError;
use crate::text::{
    ascii_lower, chars_of, chars_range_eq, find_char, find_char_from, split_char, split_str, str_eq,
    to_ascii_lower, trim, trim_str,
};

verus! {

broadcast use vstd::string::group_string_axioms;

/// How a caller authenticated.
#[derive(Debug, Clone, Copy, PartialEq, Eq)]
pub enum AuthMethod {
    ApiKey,
    Jwt,
    OAuth2,
}

/// An authenticated caller.
#[derive(Debug, Clone)]
pub struct AuthContext {
    pub subject: String,
    pub publisher_id: Option<u128>,
    pub role: String,
    pub permissions: Vec<String>,
    pub method: AuthMethod,
    pub mfa_verified: bool,
}

/// `role.eq_ignore_ascii_case("admin")`.
pub open spec fn is_admin_role(role: Seq<char>) -> bool {
    role.len() == 5 && forall|i: int| 0 <= i < 5 ==> #[trigger] ascii_lower(role[i]) == "admin"@[i]
}

/// A scope grants a permission when it is `*`, the permission itself, or
/// `<prefix>:*` where the permission is `<prefix>:<anything>` (split at
/// its first `:`).
pub open spec fn scope_grants(scope: Seq<char>, permission: Seq<char>) -> bool {
    ||| scope == "*"@
    ||| scope == permission
    ||| {
        let k = find_char(permission, ':', 0);
        k >= 0 && scope == permission.subrange(0, k) + ":*"@
    }
}

fn is_admin_role_exec(role: &str) -> (r: bool)
    ensures
        r == is_admin_role(role@),
{
    let v = chars_of(role);
    let lit = chars_of("admin");
    proof {
        reveal_strlit("admin");
    }
    if v.len() != 5 {
        return false;
    }
    let mut i: usize = 0;
    while i < 5
        invariant
            v@ == role@,
            v@.len() == 5,
            lit@ == "admin"@,
            lit@.len() == 5,
            i <= 5,
            forall|j: int| 0 <= j < i ==> #[trigger] ascii_lower(v@[j]) == "admin"@[j],
        decreases 5 - i,
    {
        if to_ascii_lower(v[i]) != lit[i] {
            return false;
        }
        i = i + 1;
    }
    true
}

impl AuthContext {
    /// Admins may do anything; others need a scope that grants the
    /// permission.
    pub fn has_permission(&self, permission: &str) -> (r: bool)
        ensures
            r == (is_admin_role(self.role@) || exists|i: int|
                0 <= i < self.permissions@.len() && #[trigger] scope_grants(
                    self.permissions@[i]@,
                    permission@,
                )),
    {
        if is_admin_role_exec(self.role.as_str()) {
            return true;
        }
        let pv = chars_of(permission);
        let k = find_char_from(&pv, ':', 0);
        proof {
            reveal_strlit(":*");
        }
        let wildcard: Option<String> = if k < pv.len() {
            let mut w = String::from_str(permission.substring_char(0, k));
            w.append(":*");
            Some(w)
        } else {
            None
        };
        let mut i: usize = 0;
        while i < self.permissions.len()
            invariant
                i <= self.permissions@.len(),
                pv@ == permission@,
                !is_admin_role(self.role@),
                match wildcard {
                    Some(w) => find_char(permission@, ':', 0) >= 0 && w@ == permission@.subrange(
                        0,
                        find_char(permission@, ':', 0),
                    ) + ":*"@,
                    None => find_char(permission@, ':', 0) < 0,
                },
                forall|j: int| 0 <= j < i ==> !#[trigger] scope_grants(
                    self.permissions@[j]@,
                    permission@,
                ),
            decreases self.permissions@.len() - i,
        {
            let s = self.permissions[i].as_str();
            let hit = str_eq(s, "*") || str_eq(s, permission) || match &wildcard {
                Some(w) => str_eq(s, w.as_str()),
                None => false,
            };
            if hit {
                assert(scope_grants(self.permissions@[i as int]@, permission@));
                return true;
            }
            i = i + 1;
        }
        false
    }
}

/// The role of a token's caller: its `role` claim, else `admin` or `user`
/// by its admin flag.
pub open spec fn claims_role(c: AuthClaims) -> Seq<char> {
    match c.role {
        Some(r) => r@,
        None => if c.admin {
            "admin"@
        } else {
            "user"@
        },
    }
}

/// The caller a validated token describes.
pub fn context_from_claims(claims: AuthClaims, method: AuthMethod) -> (c: AuthContext)
    ensures
        c.subject == claims.sub,
        c.publisher_id == Some(claims.publisher_id),
        c.role@ == claims_role(claims),
        c.permissions == claims.scopes,
        c.method == method,
        c.mfa_verified == claims.mfa_verified,
{
    let role = match claims.role {
        Some(r) => r,
        None => if claims.admin {
            String::from_str("admin")
        } else {
            String::from_str("user")
        },
    };
    AuthContext {
        subject: claims.sub,
        publisher_id: Some(claims.publisher_id),
        role,
        permissions: claims.scopes,
        method,
        mfa_verified: claims.mfa_verified,
    }
}

/// Whether a token's claims carry administrative rights: the admin flag,
/// or the role `admin`, `ADMIN` or `Admin`.
pub fn is_admin(claims: &AuthClaims) -> (r: bool)
    ensures
        r == (claims.admin || (claims.role matches Some(x) && (x@ == "admin"@ || x@ == "ADMIN"@
            || x@ == "Admin"@))),
{
    if claims.admin {
        return true;
    }
    match &claims.role {
        Some(x) => str_eq(x.as_str(), "admin") || str_eq(x.as_str(), "ADMIN") || str_eq(
            x.as_str(),
            "Admin",
        ),
        None => false,
    }
}

// ── Credentials ──────────────────────────────────────────────────────────

/// What a request presents to authenticate.
#[derive(Debug, Clone, PartialEq, Eq)]
pub enum Credential {
    ApiKey(String),
    Token(AuthMethod, String),
    Missing,
    UnsupportedScheme,
}

/// `s` begins with `p`.
pub open spec fn starts_with(s: Seq<char>, p: Seq<char>) -> bool {
    p.len() <= s.len() && s.subrange(0, p.len() as int) == p
}

fn strip_prefix<'a>(s: &'a str, v: &Vec<char>, p: &str) -> (r: Option<&'a str>)
    requires
        v@ == s@,
    ensures
        starts_with(s@, p@) ==> (r matches Some(t) && t@ == s@.subrange(p@.len() as int, s@.len() as int)),
        !starts_with(s@, p@) ==> r is None,
{
    let pv = chars_of(p);
    if pv.len() > v.len() {
        return None;
    }
    if chars_range_eq(v, 0, pv.len(), &pv) {
        Some(s.substring_char(pv.len(), v.len()))
    } else {
        None
    }
}

/// The credential of a request, from its `x-api-key` header and its
/// `Authorization` header (each absent when missing or not text): a
/// non-blank API-key header wins; then `ApiKey <key>`, `Bearer <jwt>` and
/// `OAuth2 <token>` schemes, their value trimmed.
pub fn classify_credentials(api_key_header: Option<&str>, authorization: Option<&str>) -> (c:
    Credential)
    ensures
        ({
            let k = match api_key_header {
                Some(h) => trim(h@),
                None => Seq::empty(),
            };
            if k.len() > 0 {
                c matches Credential::ApiKey(x) && x@ == k
            } else {
                match authorization {
                    None => c == Credential::Missing,
                    Some(a) => if starts_with(a@, "ApiKey "@) {
                        c matches Credential::ApiKey(x) && x@ == trim(a@.subrange(7, a@.len() as int))
                    } else if starts_with(a@, "Bearer "@) {
                        c matches Credential::Token(m, x) && m == AuthMethod::Jwt && x@ == trim(
                            a@.subrange(7, a@.len() as int),
                        )
                    } else if starts_with(a@, "OAuth2 "@) {
                        c matches Credential::Token(m, x) && m == AuthMethod::OAuth2 && x@ == trim(
                            a@.subrange(7, a@.len() as int),
                        )
                    } else {
                        c == Credential::UnsupportedScheme
                    },
                }
            }
        }),
{
    proof {
        reveal_strlit("ApiKey ");
        reveal_strlit("Bearer ");
        reveal_strlit("OAuth2 ");
    }
    if let Some(h) = api_key_header {
        let t = trim_str(h);
        if t.unicode_len() > 0 {
            return Credential::ApiKey(String::from_str(t));
        }
    }
    let a = match authorization {
        Some(a) => a,
        None => {
            return Credential::Missing;
        },
    };
    let v = chars_of(a);
    if let Some(rest) = strip_prefix(a, &v, "ApiKey ") {
        return Credential::ApiKey(String::from_str(trim_str(rest)));
    }
    if let Some(rest) = strip_prefix(a, &v, "Bearer ") {
        return Credential::Token(AuthMethod::Jwt, String::from_str(trim_str(rest)));
    }
    if let Some(rest) = strip_prefix(a, &v, "OAuth2 ") {
        return Credential::Token(AuthMethod::OAuth2, String::from_str(trim_str(rest)));
    }
    Credential::UnsupportedScheme
}

/// The bearer token of an `Authorization` header (absent when missing or
/// not text): the trimmed text after `Bearer `, when not blank.
pub fn bearer_token(authorization: Option<&str>) -> (t: Option<String>)
    ensures
        match authorization {
            Some(a) if starts_with(a@, "Bearer "@) && trim(a@.subrange(7, a@.len() as int)).len() > 0 => (
            t matches Some(x) && x@ == trim(a@.subrange(7, a@.len() as int))),
            _ => t is None,
        },
{
    proof {
        reveal_strlit("Bearer ");
    }
    let a = match authorization {
        Some(a) => a,
        None => {
            return None;
        },
    };
    let v = chars_of(a);
    match strip_prefix(a, &v, "Bearer ") {
        Some(rest) => {
            let t = trim_str(rest);
            if t.unicode_len() > 0 {
                Some(String::from_str(t))
            } else {
                None
            }
        },
        None => None,
    }
}

// ── Configured API keys ──────────────────────────────────────────────────

/// One configured API key and the caller it stands for.
#[derive(Debug, Clone)]
pub struct ApiKeyEntry {
    pub key: String,
    pub subject: String,
    pub role: String,
    pub permissions: Vec<String>,
    pub mfa_verified: bool,
}

/// The trimmed `i`-th field, or `default` when it is missing or blank.
pub open spec fn field_or(parts: Seq<Seq<char>>, i: int, default: Seq<char>) -> Seq<char> {
    if i < parts.len() && trim(parts[i]).len() > 0 {
        trim(parts[i])
    } else {
        default
    }
}

pub open spec fn nonblank() -> spec_fn(Seq<char>) -> bool {
    |p: Seq<char>| p.len() > 0
}

pub open spec fn trimmed(s: Seq<Seq<char>>) -> Seq<Seq<char>> {
    s.map_values(|p: Seq<char>| trim(p))
}

/// The permissions field: `|`-separated scopes, trimmed, blanks dropped;
/// `read:*` when the field is missing.
pub open spec fn permissions_field(parts: Seq<Seq<char>>) -> Seq<Seq<char>> {
    if 3 < parts.len() {
        trimmed(split_char(parts[3], '|')).filter(nonblank())
    } else {
        seq!["read:*"@]
    }
}

/// The MFA field: `mfa`, `true` or `1` once trimmed.
pub open spec fn mfa_field(parts: Seq<Seq<char>>) -> bool {
    4 < parts.len() && (trim(parts[4]) == "mfa"@ || trim(parts[4]) == "true"@ || trim(parts[4])
        == "1"@)
}

/// The key of a `key:subject:role:perm|perm:mfa` entry.
pub open spec fn entry_key(e: Seq<char>) -> Seq<char> {
    trim(split_char(e, ':')[0])
}

pub open spec fn has_key() -> spec_fn(Seq<char>) -> bool {
    |e: Seq<char>| entry_key(e).len() > 0
}

/// The entries of an API-key setting: comma-separated, those with a key.
pub open spec fn api_key_entries(raw: Seq<char>) -> Seq<Seq<char>> {
    split_char(raw, ',').filter(has_key())
}

/// An entry read from its text.
pub open spec fn entry_fits(x: ApiKeyEntry, e: Seq<char>) -> bool {
    let parts = split_char(e, ':');
    &&& x.key@ == trim(parts[0])
    &&& x.subject@ == field_or(parts, 1, "api-key"@)
    &&& x.role@ == field_or(parts, 2, "service"@)
    &&& x.permissions@.map_values(|p: String| p@) == permissions_field(parts)
    &&& x.mfa_verified == mfa_field(parts)
}

proof fn lemma_split_nonempty(s: Seq<char>, c: char)
    ensures
        split_char(s, c).len() >= 1,
{
}

fn field_or_exec(parts: &Vec<String>, i: usize, default: &str) -> (r: String)
    ensures
        r@ == field_or(parts@.map_values(|p: String| p@), i as int, default@),
{
    if i < parts.len() {
        let t = trim_str(parts[i].as_str());
        if t.unicode_len() > 0 {
            return String::from_str(t);
        }
    }
    String::from_str(default)
}

fn permissions_exec(parts: &Vec<String>) -> (r: Vec<String>)
    ensures
        r@.map_values(|p: String| p@) == permissions_field(parts@.map_values(|p: String| p@)),
{
    let ghost pv = parts@.map_values(|p: String| p@);
    if parts.len() <= 3 {
        let mut r: Vec<String> = Vec::new();
        r.push(String::from_str("read:*"));
        assert(r@.map_values(|p: String| p@) =~= seq!["read:*"@]);
        return r;
    }
    let pieces = split_str(parts[3].as_str(), '|');
    let ghost w = trimmed(pieces@.map_values(|p: String| p@));
    assert(pieces@.map_values(|p: String| p@) == split_char(pv[3], '|'));
    let mut r: Vec<String> = Vec::new();
    let mut j: usize = 0;
    assert(w.take(0) =~= Seq::<Seq<char>>::empty());
    while j < pieces.len()
        invariant
            j <= pieces@.len(),
            w == trimmed(pieces@.map_values(|p: String| p@)),
            r@.map_values(|p: String| p@) == w.take(j as int).filter(nonblank()),
        decreases pieces@.len() - j,
    {
        let t = trim_str(pieces[j].as_str());
        let ghost before = r@.map_values(|p: String| p@);
        assert(w.take(j + 1) =~= w.take(j as int).push(w[j as int]));
        assert(w[j as int] == t@);
        proof {
            w.take(j as int).lemma_filter_push(w[j as int], nonblank());
        }
        if t.unicode_len() > 0 {
            r.push(String::from_str(t));
            assert(r@.map_values(|p: String| p@) =~= before.push(t@));
        }
        j = j + 1;
    }
    assert(w.take(j as int) =~= w);
    r
}

fn is_mfa_flag(parts: &Vec<String>) -> (r: bool)
    ensures
        r == mfa_field(parts@.map_values(|p: String| p@)),
{
    if parts.len() <= 4 {
        return false;
    }
    let t = trim_str(parts[4].as_str());
    str_eq(t, "mfa") || str_eq(t, "true") || str_eq(t, "1")
}

/// Reads an API-key setting: comma-separated entries
/// `key[:subject[:role[:perm|perm…[:mfa]]]]`; entries with a blank key are
/// skipped, blank fields take their defaults.
pub fn parse_api_keys(raw: &str) -> (r: Vec<ApiKeyEntry>)
    ensures
        r@.len() == api_key_entries(raw@).len(),
        forall|i: int| 0 <= i < r@.len() ==> entry_fits(#[trigger] r@[i], api_key_entries(raw@)[i]),
{
    let entries = split_str(raw, ',');
    let ghost ev = entries@.map_values(|p: String| p@);
    let mut out: Vec<ApiKeyEntry> = Vec::new();
    let mut i: usize = 0;
    assert(ev.take(0) =~= Seq::<Seq<char>>::empty());
    while i < entries.len()
        invariant
            i <= entries@.len(),
            ev == entries@.map_values(|p: String| p@),
            ev == split_char(raw@, ','),
            out@.len() == ev.take(i as int).filter(has_key()).len(),
            forall|m: int| 0 <= m < out@.len() ==> entry_fits(#[trigger] out@[m], ev.take(i as int).filter(has_key())[m]),
        decreases entries@.len() - i,
    {
        let e = entries[i].as_str();
        let parts = split_str(e, ':');
        proof {
            lemma_split_nonempty(e@, ':');
        }
        let key = trim_str(parts[0].as_str());
        assert(ev.take(i + 1) =~= ev.take(i as int).push(ev[i as int]));
        assert(ev[i as int] == e@);
        assert(parts@.map_values(|p: String| p@)[0] == parts@[0]@);
        assert(entry_key(e@) == key@);
        proof {
            ev.take(i as int).lemma_filter_push(e@, has_key());
        }
        if key.unicode_len() > 0 {
            let entry = ApiKeyEntry {
                key: String::from_str(key),
                subject: field_or_exec(&parts, 1, "api-key"),
                role: field_or_exec(&parts, 2, "service"),
                permissions: permissions_exec(&parts),
                mfa_verified: is_mfa_flag(&parts),
            };
            let ghost before = ev.take(i as int).filter(has_key());
            out.push(entry);
            assert(ev.take(i + 1).filter(has_key()) =~= before.push(e@));
        }
        i = i + 1;
    }
    assert(ev.take(i as int) =~= ev);
    out
}

/// The caller of an API key: the first configured entry with that key.
pub fn authenticate_api_key(entries: &Vec<ApiKeyEntry>, api_key: &str) -> (r: Result<
    AuthContext,
    ApiError,
>)
    ensures
        match r {
            Ok(c) => exists|i: int|
                0 <= i < entries@.len() && #[trigger] entries@[i].key@ == api_key@ && (forall|j: int|
                    0 <= j < i ==> entries@[j].key@ != api_key@) && c.subject == entries@[i].subject
                    && c.publisher_id is None && c.role == entries@[i].role && c.permissions@
                    == entries@[i].permissions@ && c.method == AuthMethod::ApiKey && c.mfa_verified
                    == entries@[i].mfa_verified,
            Err(e) => (forall|i: int| 0 <= i < entries@.len() ==> #[trigger] entries@[i].key@ != api_key@)
                && e.status == 401 && e.message@ == "Invalid API key"@,
        },
{
    let mut i: usize = 0;
    while i < entries.len()
        invariant
            i <= entries@.len(),
            forall|j: int| 0 <= j < i ==> #[trigger] entries@[j].key@ != api_key@,
        decreases entries@.len() - i,
    {
        if str_eq(entries[i].key.as_str(), api_key) {
            let e = &entries[i];
            let c = AuthContext {
                subject: e.subject.clone(),
                publisher_id: None,
                role: e.role.clone(),
                permissions: crate::auth::clone_strings(&e.permissions),
                method: AuthMethod::ApiKey,
                mfa_verified: e.mfa_verified,
            };
            assert(entries@[i as int].key@ == api_key@);
            return Ok(c);
        }
        i = i + 1;
    }
    Err(ApiError::unauthorized("Invalid API key"))
}

} // verus!
