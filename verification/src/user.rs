//! The logged-in user, as an authenticating proxy announces it in headers.

use vstd::prelude::*;

verus! {

/// The header map of the `hyper` crate, opaque to the verifier.
#[verifier::external_type_specification]
#[verifier::external_body]
#[verifier::reject_recursive_types(T)]
pub struct ExHeaderMap<T>(hyper::HeaderMap<T>);

/// A header value of the `hyper` crate, opaque to the verifier.
#[verifier::external_type_specification]
#[verifier::external_body]
pub struct ExHeaderValue(hyper::header::HeaderValue);

/// What a header map holds: for each way of writing a header's name under
/// which a lookup succeeds, the bytes of the first value kept for that
/// header.
pub uninterp spec fn first_values(headers: hyper::HeaderMap) -> Map<Seq<char>, Seq<u8>>;

/// The text that lossy UTF-8 decoding makes of a run of bytes.
pub uninterp spec fn lossy_text(bytes: Seq<u8>) -> Seq<char>;

/// Whether a character has the Unicode property `White_Space`.
pub open spec fn is_white_space(c: char) -> bool {
    let n = c as u32;
    (0x09 <= n <= 0x0d) || n == 0x20 || n == 0x85 || n == 0xa0 || n == 0x1680 || (0x2000 <= n
        <= 0x200a) || n == 0x2028 || n == 0x2029 || n == 0x202f || n == 0x205f || n == 0x3000
}

/// Whether `t` is `s` without its leading and trailing white space.
pub open spec fn is_trim_of(s: Seq<char>, t: Seq<char>) -> bool {
    exists|a: int, b: int|
        0 <= a <= b <= s.len() && #[trigger] s.subrange(a, b) == t && (forall|i: int|
            0 <= i < a || b <= i < s.len() ==> is_white_space(#[trigger] s[i])) && (a < b
            ==> !is_white_space(s[a]) && !is_white_space(s[b - 1]))
}

/// The parts put together again, with a comma between neighbours.
pub open spec fn joined(parts: Seq<Seq<char>>) -> Seq<char>
    decreases parts.len(),
{
    if parts.len() == 0 {
        Seq::empty()
    } else if parts.len() == 1 {
        parts[0]
    } else {
        parts[0] + seq![','] + joined(parts.drop_first())
    }
}

/// Whether `parts` are the stretches of `s` between its commas.
pub open spec fn is_split_of(s: Seq<char>, parts: Seq<Seq<char>>) -> bool {
    parts.len() >= 1 && joined(parts) == s && forall|i: int|
        0 <= i < parts.len() ==> !(#[trigger] parts[i]).contains(',')
}

/// The models of a run of strings.
pub open spec fn texts(v: Seq<String>) -> Seq<Seq<char>> {
    Seq::new(v.len(), |i: int| v[i]@)
}

/// Looks a header up with `HeaderMap::get` and copies the bytes of the value
/// found. Trusted: the result is what `first_values` holds under the name as
/// written, and there is none exactly when the lookup finds no such header.
#[verifier::external_body]
fn header_bytes(headers: &hyper::HeaderMap, name: &String) -> (r: Option<Vec<u8>>)
    ensures
        r is Some <==> first_values(*headers).dom().contains(name@),
        r matches Some(b) ==> b@ == first_values(*headers)[name@],
{
    headers.get(name).map(|v| v.as_bytes().to_vec())
}

/// Decodes bytes with `String::from_utf8_lossy`. Trusted: the result is
/// `lossy_text` of the bytes.
#[verifier::external_body]
fn decode_lossy(bytes: &Vec<u8>) -> (s: String)
    ensures
        s@ == lossy_text(bytes@),
{
    String::from_utf8_lossy(bytes).into_owned()
}

/// Trims with `str::trim`. Trusted: the result is the argument without its
/// leading and trailing white space.
#[verifier::external_body]
fn trim(s: &String) -> (t: String)
    ensures
        is_trim_of(s@, t@),
{
    s.trim().to_owned()
}

/// Splits with `str::split` at every comma. Trusted: the parts hold no
/// comma, there is at least one, and joined by commas they give the
/// argument back.
#[verifier::external_body]
fn split_commas(s: &String) -> (parts: Vec<String>)
    ensures
        is_split_of(s@, texts(parts@)),
{
    s.split(',').map(|p| p.to_owned()).collect()
}

/// Which headers carry the user, and whether to read them at all.
#[derive(Debug)]
pub struct AuthConfig {
    pub proxy: ProxyConfig,
    pub username_header: String,
    pub display_name_header: String,
    pub roles_header: String,
}

/// The settings of the authenticating proxy.
#[derive(Debug)]
pub struct ProxyConfig {
    pub enabled: bool,
}

/// Data about a logged-in user.
#[derive(Debug, Clone, PartialEq, Eq)]
pub struct User {
    pub username: String,
    pub display_name: String,
    pub roles: Vec<String>,
}

/// Whether `roles` is what the text of a roles header announces: the text
/// split at commas, each part trimmed.
pub open spec fn roles_of(text: Seq<char>, roles: Seq<Seq<char>>) -> bool {
    exists|parts: Seq<Seq<char>>| #[trigger]
        is_split_of(text, parts) && parts.len() == roles.len() && forall|i: int|
            0 <= i < parts.len() ==> is_trim_of(#[trigger] parts[i], roles[i])
}

/// The text of a header, if the header is there, by lenient decoding.
fn header_text(headers: &hyper::HeaderMap, name: &String) -> (r: Option<String>)
    ensures
        r is Some <==> first_values(*headers).dom().contains(name@),
        r matches Some(t) ==> t@ == lossy_text(first_values(*headers)[name@]),
{
    match header_bytes(headers, name) {
        Some(raw) => Some(decode_lossy(&raw)),
        None => None,
    }
}

impl User {
    /// Whether a user can be read from these headers: the proxy is enabled
    /// and both the user name and the display name are announced.
    pub open spec fn announced(headers: hyper::HeaderMap, auth_config: AuthConfig) -> bool {
        auth_config.proxy.enabled && first_values(headers).dom().contains(
            auth_config.username_header@,
        ) && first_values(headers).dom().contains(auth_config.display_name_header@)
    }

    /// The roles that the text of a roles header announces: the text split
    /// at commas, each part trimmed.
    pub fn roles_from(text: &String) -> (roles: Vec<String>)
        ensures
            roles_of(text@, texts(roles@)),
    {
        let parts = split_commas(text);
        let mut roles: Vec<String> = Vec::new();
        let mut i: usize = 0;
        while i < parts.len()
            invariant
                i <= parts.len(),
                roles@.len() == i,
                forall|k: int| 0 <= k < i ==> is_trim_of(#[trigger] parts@[k]@, roles@[k]@),
            decreases parts.len() - i,
        {
            let role = trim(&parts[i]);
            roles.push(role);
            i += 1;
        }
        proof {
            let ps = texts(parts@);
            let rs = texts(roles@);
            assert forall|k: int| 0 <= k < ps.len() implies is_trim_of(#[trigger] ps[k], rs[k]) by {
                assert(is_trim_of(parts@[k]@, roles@[k]@));
            }
            assert(is_split_of(text@, ps));
        }
        roles
    }

    /// Puts a user together from the texts that the headers gave. There is
    /// a user exactly when the proxy is enabled and both names are there.
    /// The names are trimmed; without a roles header the user has no roles.
    pub fn assemble(
        enabled: bool,
        username: Option<String>,
        display_name: Option<String>,
        roles: Option<String>,
    ) -> (r: Option<User>)
        ensures
            r is Some <==> enabled && username is Some && display_name is Some,
            r matches Some(u) ==> {
                &&& is_trim_of(username->Some_0@, u.username@)
                &&& is_trim_of(display_name->Some_0@, u.display_name@)
                &&& match roles {
                    Some(text) => roles_of(text@, texts(u.roles@)),
                    None => u.roles@.len() == 0,
                }
            },
    {
        if !enabled {
            return None;
        }
        let username = match username {
            Some(text) => trim(&text),
            None => {
                return None;
            },
        };
        let display_name = match display_name {
            Some(text) => trim(&text),
            None => {
                return None;
            },
        };
        let roles = match roles {
            None => Vec::new(),
            Some(text) => User::roles_from(&text),
        };
        Some(User { username, display_name, roles })
    }

    /// Reads the user from the headers that the authenticating proxy sets.
    /// These are read only if the proxy is enabled.
    pub fn from_headers(headers: &hyper::HeaderMap, auth_config: &AuthConfig) -> (r: Option<User>)
        ensures
            r is Some <==> User::announced(*headers, *auth_config),
            r matches Some(u) ==> {
                let held = first_values(*headers);
                &&& is_trim_of(lossy_text(held[auth_config.username_header@]), u.username@)
                &&& is_trim_of(lossy_text(held[auth_config.display_name_header@]), u.display_name@)
                &&& if held.dom().contains(auth_config.roles_header@) {
                    roles_of(lossy_text(held[auth_config.roles_header@]), texts(u.roles@))
                } else {
                    u.roles@.len() == 0
                }
            },
    {
        if !auth_config.proxy.enabled {
            return None;
        }
        let username = header_text(headers, &auth_config.username_header);
        let display_name = header_text(headers, &auth_config.display_name_header);
        let roles = header_text(headers, &auth_config.roles_header);
        User::assemble(true, username, display_name, roles)
    }
}

} // verus!
