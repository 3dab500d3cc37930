//! The payload of a session token: a JSON object with the four claims.
//!
//! The writer puts the members in the order of their keys and leaves out all
//! white space. The reader accepts the members in any order, each exactly
//! once, and nothing else.

use super::jwt::{Claims, Jwt};
use super::role::UserRole;
use crate::decimal::{
    decimal_text, is_digit, lemma_parse_decimal, parse_int, push_decimal, read_int,
};
use crate::json::{lemma_parse_quoted, parse_string, push_quoted, quoted, read_string};
use crate::text::{
    chars_of, has_at, lemma_has_at_char, lemma_has_at_split, text_is,
};
use vstd::prelude::*;

verus! {

/// Key of the member that holds the expiry.
pub open spec fn key_expiry() -> Seq<char> {
    "token_expire_date"@
}

/// Key of the member that holds the token key.
pub open spec fn key_token() -> Seq<char> {
    "token_key"@
}

/// Key of the member that holds the identity's name.
pub open spec fn key_name() -> Seq<char> {
    "user_name"@
}

/// Key of the member that holds the roles.
pub open spec fn key_roles() -> Seq<char> {
    "user_roles"@
}

/// The name by which a role is written.
pub open spec fn role_name(role: UserRole) -> Seq<char> {
    match role {
        UserRole::Unprivileged => "Unprivileged"@,
        UserRole::NormalUser => "NormalUser"@,
        UserRole::Moderator => "Moderator"@,
        UserRole::Admin => "Admin"@,
    }
}

/// The role that is written by the name `name`.
pub open spec fn role_from_name(name: Seq<char>) -> Option<UserRole> {
    if name == "Unprivileged"@ {
        Some(UserRole::Unprivileged)
    } else if name == "NormalUser"@ {
        Some(UserRole::NormalUser)
    } else if name == "Moderator"@ {
        Some(UserRole::Moderator)
    } else if name == "Admin"@ {
        Some(UserRole::Admin)
    } else {
        None
    }
}

/// The elements of the array of roles: their names as string literals,
/// separated by commas.
pub open spec fn roles_text(roles: Seq<UserRole>) -> Seq<char>
    decreases roles.len(),
{
    if roles.len() == 0 {
        Seq::<char>::empty()
    } else if roles.len() == 1 {
        quoted(role_name(roles[0]))
    } else {
        quoted(role_name(roles[0])) + seq![','] + roles_text(roles.drop_first())
    }
}

/// A member of the object: the key as a string literal, a colon, the value.
pub open spec fn member_text(key: Seq<char>, value: Seq<char>) -> Seq<char> {
    quoted(key) + seq![':'] + value
}

/// The payload that carries the claims `c`.
pub open spec fn claims_text(c: Claims) -> Seq<char> {
    seq!['{'] + member_text(key_expiry(), decimal_text(c.token_expire_date)) + seq![',']
        + member_text(key_token(), quoted(c.token_key)) + seq![','] + member_text(
        key_name(),
        quoted(c.user_name),
    ) + seq![','] + member_text(key_roles(), seq!['['] + roles_text(c.user_roles) + seq![']'])
        + seq!['}']
}

/// The claims read so far from the members of a payload.
pub struct Partial {
    pub expiry: Option<int>,
    pub token: Option<Seq<char>>,
    pub name: Option<Seq<char>>,
    pub roles: Option<Seq<UserRole>>,
}

/// No claim read yet.
pub open spec fn nothing_read() -> Partial {
    Partial { expiry: None, token: None, name: None, roles: None }
}

/// The claims, once all four have been read.
pub open spec fn completed(p: Partial) -> Option<Claims> {
    match (p.expiry, p.token, p.name, p.roles) {
        (Some(expiry), Some(token), Some(name), Some(roles)) => Some(
            Claims {
                user_name: name,
                user_roles: roles,
                token_key: token,
                token_expire_date: expiry,
            },
        ),
        _ => None,
    }
}

/// Reads the name of a role, as a string literal, at position `i`.
pub open spec fn parse_role(s: Seq<char>, i: int) -> Option<(UserRole, int)> {
    match parse_string(s, i) {
        Some((name, next)) => match role_from_name(name) {
            Some(role) => Some((role, next)),
            None => None,
        },
        None => None,
    }
}

/// Reads the elements of a non-empty array of roles from position `i` up to
/// the closing bracket: the roles, and the position after the bracket.
pub open spec fn parse_role_list(s: Seq<char>, i: int) -> Option<(Seq<UserRole>, int)>
    decreases s.len() - i,
{
    match parse_role(s, i) {
        Some((role, next)) => if i < next < s.len() {
            if s[next] == ']' {
                Some((seq![role], next + 1))
            } else if s[next] == ',' {
                match parse_role_list(s, next + 1) {
                    Some((rest, end)) => Some((seq![role] + rest, end)),
                    None => None,
                }
            } else {
                None
            }
        } else {
            None
        },
        None => None,
    }
}

/// Reads an array of roles at position `i`.
pub open spec fn parse_roles(s: Seq<char>, i: int) -> Option<(Seq<UserRole>, int)> {
    if 0 <= i && i + 1 < s.len() && s[i] == '[' {
        if s[i + 1] == ']' {
            Some((Seq::<UserRole>::empty(), i + 2))
        } else {
            parse_role_list(s, i + 1)
        }
    } else {
        None
    }
}

/// Reads one member at position `i` into `p`. A key that is none of the
/// four, or that was read before, makes the payload malformed.
pub open spec fn parse_member(s: Seq<char>, i: int, p: Partial) -> Option<(Partial, int)> {
    match parse_string(s, i) {
        Some((key, colon)) => if 0 <= colon < s.len() && s[colon] == ':' {
            if key == key_expiry() && p.expiry is None {
                match parse_int(s, colon + 1) {
                    Some((v, end)) => Some((Partial { expiry: Some(v), ..p }, end)),
                    None => None,
                }
            } else if key == key_token() && p.token is None {
                match parse_string(s, colon + 1) {
                    Some((v, end)) => Some((Partial { token: Some(v), ..p }, end)),
                    None => None,
                }
            } else if key == key_name() && p.name is None {
                match parse_string(s, colon + 1) {
                    Some((v, end)) => Some((Partial { name: Some(v), ..p }, end)),
                    None => None,
                }
            } else if key == key_roles() && p.roles is None {
                match parse_roles(s, colon + 1) {
                    Some((v, end)) => Some((Partial { roles: Some(v), ..p }, end)),
                    None => None,
                }
            } else {
                None
            }
        } else {
            None
        },
        None => None,
    }
}

/// Reads the members of the object from position `i` up to the closing
/// brace, which must end the payload.
pub open spec fn parse_members(s: Seq<char>, i: int, p: Partial) -> Option<Claims>
    decreases s.len() - i,
{
    match parse_member(s, i, p) {
        Some((read, next)) => if i < next < s.len() {
            if s[next] == '}' {
                if next + 1 == s.len() {
                    completed(read)
                } else {
                    None
                }
            } else if s[next] == ',' {
                parse_members(s, next + 1, read)
            } else {
                None
            }
        } else {
            None
        },
        None => None,
    }
}

/// The claims that the payload `s` carries, if it is well formed.
pub open spec fn parse_claims(s: Seq<char>) -> Option<Claims> {
    if s.len() > 0 && s[0] == '{' {
        parse_members(s, 1, nothing_read())
    } else {
        None
    }
}

fn role_label(role: UserRole) -> (label: &'static str)
    ensures
        label@ == role_name(role),
{
    match role {
        UserRole::Unprivileged => "Unprivileged",
        UserRole::NormalUser => "NormalUser",
        UserRole::Moderator => "Moderator",
        UserRole::Admin => "Admin",
    }
}

fn role_of_name(name: &String) -> (role: Option<UserRole>)
    ensures
        role == role_from_name(name@),
{
    if text_is(name, "Unprivileged") {
        Some(UserRole::Unprivileged)
    } else if text_is(name, "NormalUser") {
        Some(UserRole::NormalUser)
    } else if text_is(name, "Moderator") {
        Some(UserRole::Moderator)
    } else if text_is(name, "Admin") {
        Some(UserRole::Admin)
    } else {
        None
    }
}

/// What is still to be written of the elements of an array of roles when
/// the first `i` have been written, for `i` of at least one.
spec fn roles_rest(roles: Seq<UserRole>, i: int) -> Seq<char> {
    if i < roles.len() {
        seq![','] + roles_text(roles.skip(i))
    } else {
        Seq::<char>::empty()
    }
}

fn push_roles(out: &mut String, roles: &Vec<UserRole>)
    ensures
        final(out)@ == old(out)@ + roles_text(roles@),
{
    let ghost before = out@;
    if roles.len() == 0 {
        assert(out@ =~= before + roles_text(roles@));
        return ;
    }
    push_quoted(out, role_label(roles[0]));
    let mut i: usize = 1;
    assert(out@ + roles_rest(roles@, 1) =~= before + roles_text(roles@)) by {
        assert(roles@.drop_first() =~= roles@.skip(1));
    }
    while i < roles.len()
        invariant
            1 <= i <= roles.len(),
            out@ + roles_rest(roles@, i as int) == before + roles_text(roles@),
        decreases roles.len() - i,
    {
        let ghost so_far = out@;
        let ghost rest = roles@.skip(i as int);
        out.push(',');
        push_quoted(out, role_label(roles[i]));
        assert(out@ + roles_rest(roles@, i as int + 1) =~= so_far + roles_rest(roles@, i as int))
            by {
            assert(rest[0] == roles@[i as int]);
            assert(rest.drop_first() =~= roles@.skip(i as int + 1));
        }
        i += 1;
    }
    assert(out@ =~= before + roles_text(roles@));
}

/// Writes the payload that carries the claims of `jwt`.
pub fn write_claims(jwt: &Jwt) -> (text: String)
    ensures
        text@ == claims_text(jwt@),
{
    let mut text = String::new();
    text.push('{');
    push_quoted(&mut text, "token_expire_date");
    text.push(':');
    push_decimal(&mut text, jwt.token_expire_date);
    text.push(',');
    push_quoted(&mut text, "token_key");
    text.push(':');
    push_quoted(&mut text, jwt.token_key.as_str());
    text.push(',');
    push_quoted(&mut text, "user_name");
    text.push(':');
    push_quoted(&mut text, jwt.user_name.as_str());
    text.push(',');
    push_quoted(&mut text, "user_roles");
    text.push(':');
    text.push('[');
    push_roles(&mut text, &jwt.user_roles);
    text.push(']');
    text.push('}');
    assert(text@ =~= claims_text(jwt@));
    text
}

/// Puts `prefix` before the roles of a reading result.
spec fn with_roles_before(prefix: Seq<UserRole>, r: Option<(Seq<UserRole>, int)>) -> Option<
    (Seq<UserRole>, int),
> {
    match r {
        Some((rest, end)) => Some((prefix + rest, end)),
        None => None,
    }
}

fn read_roles(s: &Vec<char>, i: usize) -> (r: Option<(Vec<UserRole>, usize)>)
    requires
        i <= s.len(),
    ensures
        match r {
            Some((roles, end)) => parse_roles(s@, i as int) == Some((roles@, end as int)) && i
                < end <= s.len(),
            None => parse_roles(s@, i as int) is None,
        },
{
    if s.len() - i < 2 || s[i] != '[' {
        return None;
    }
    let mut roles: Vec<UserRole> = Vec::new();
    if s[i + 1] == ']' {
        return Some((roles, i + 2));
    }
    let mut j: usize = i + 1;
    assert(with_roles_before(roles@, parse_role_list(s@, j as int)) =~= parse_role_list(
        s@,
        j as int,
    )) by {
        match parse_role_list(s@, j as int) {
            Some((rest, end)) => {
                assert(roles@ + rest =~= rest);
            },
            None => {},
        }
    }
    loop
        invariant
            i < j <= s.len(),
            parse_roles(s@, i as int) == with_roles_before(roles@, parse_role_list(s@, j as int)),
        decreases s.len() - j,
    {
        let (name, next) = match read_string(s, j) {
            Some(read) => read,
            None => {
                return None;
            },
        };
        let role = match role_of_name(&name) {
            Some(role) => role,
            None => {
                return None;
            },
        };
        if next >= s.len() {
            return None;
        }
        if s[next] == ']' {
            assert(roles@ + seq![role] =~= roles@.push(role));
            roles.push(role);
            return Some((roles, next + 1));
        } else if s[next] == ',' {
            proof {
                match parse_role_list(s@, next as int + 1) {
                    Some((rest, end)) => {
                        assert(roles@ + (seq![role] + rest) =~= roles@.push(role) + rest);
                    },
                    None => {},
                }
            }
            roles.push(role);
            j = next + 1;
        } else {
            return None;
        }
    }
}

/// The claims read so far, as the reader holds them.
struct Fields {
    expiry: Option<i64>,
    token: Option<String>,
    name: Option<String>,
    roles: Option<Vec<UserRole>>,
}

impl Fields {
    spec fn partial(self) -> Partial {
        Partial {
            expiry: match self.expiry {
                Some(v) => Some(v as int),
                None => None,
            },
            token: match self.token {
                Some(v) => Some(v@),
                None => None,
            },
            name: match self.name {
                Some(v) => Some(v@),
                None => None,
            },
            roles: match self.roles {
                Some(v) => Some(v@),
                None => None,
            },
        }
    }

    fn complete(self) -> (r: Option<Jwt>)
        ensures
            match r {
                Some(jwt) => completed(self.partial()) == Some(jwt@),
                None => completed(self.partial()) is None,
            },
    {
        match (self.expiry, self.token, self.name, self.roles) {
            (Some(expiry), Some(token), Some(name), Some(roles)) => Some(
                Jwt {
                    user_name: name,
                    user_roles: roles,
                    token_key: token,
                    token_expire_date: expiry,
                },
            ),
            _ => None,
        }
    }
}

fn read_member(s: &Vec<char>, i: usize, fields: Fields) -> (r: Option<(Fields, usize)>)
    requires
        i <= s.len(),
    ensures
        match r {
            Some((read, end)) => parse_member(s@, i as int, fields.partial()) == Some(
                (read.partial(), end as int),
            ) && i < end <= s.len(),
            None => parse_member(s@, i as int, fields.partial()) is None,
        },
{
    let (key, colon) = match read_string(s, i) {
        Some(read) => read,
        None => {
            return None;
        },
    };
    if colon >= s.len() || s[colon] != ':' {
        return None;
    }
    let mut fields = fields;
    if text_is(&key, "token_expire_date") && fields.expiry.is_none() {
        match read_int(s, colon + 1) {
            Some((v, end)) => {
                fields.expiry = Some(v);
                Some((fields, end))
            },
            None => None,
        }
    } else if text_is(&key, "token_key") && fields.token.is_none() {
        match read_string(s, colon + 1) {
            Some((v, end)) => {
                fields.token = Some(v);
                Some((fields, end))
            },
            None => None,
        }
    } else if text_is(&key, "user_name") && fields.name.is_none() {
        match read_string(s, colon + 1) {
            Some((v, end)) => {
                fields.name = Some(v);
                Some((fields, end))
            },
            None => None,
        }
    } else if text_is(&key, "user_roles") && fields.roles.is_none() {
        match read_roles(s, colon + 1) {
            Some((v, end)) => {
                fields.roles = Some(v);
                Some((fields, end))
            },
            None => None,
        }
    } else {
        None
    }
}

/// Reads the claims that the payload `text` carries.
pub fn read_claims(text: &str) -> (r: Option<Jwt>)
    ensures
        match r {
            Some(jwt) => parse_claims(text@) == Some(jwt@),
            None => parse_claims(text@) is None,
        },
{
    let s = chars_of(text);
    if s.len() == 0 || s[0] != '{' {
        return None;
    }
    let mut fields = Fields { expiry: None, token: None, name: None, roles: None };
    let mut i: usize = 1;
    loop
        invariant
            1 <= i <= s.len(),
            s@ == text@,
            parse_claims(s@) == parse_members(s@, i as int, fields.partial()),
        decreases s.len() - i,
    {
        let (read, next) = match read_member(&s, i, fields) {
            Some(read) => read,
            None => {
                return None;
            },
        };
        if next >= s.len() {
            return None;
        }
        if s[next] == '}' {
            if next + 1 == s.len() {
                return read.complete();
            } else {
                return None;
            }
        } else if s[next] == ',' {
            fields = read;
            i = next + 1;
        } else {
            return None;
        }
    }
}

/// Every role is read back from its name.
proof fn lemma_role_names(role: UserRole)
    ensures
        role_from_name(role_name(role)) == Some(role),
{
    reveal_strlit("Unprivileged");
    reveal_strlit("NormalUser");
    reveal_strlit("Moderator");
    reveal_strlit("Admin");
    assert("Unprivileged"@.len() == 12);
    assert("NormalUser"@.len() == 10);
    assert("Moderator"@.len() == 9);
    assert("Admin"@.len() == 5);
}

/// The four keys differ from each other.
proof fn lemma_keys_differ()
    ensures
        key_expiry() != key_token(),
        key_expiry() != key_name(),
        key_expiry() != key_roles(),
        key_token() != key_name(),
        key_token() != key_roles(),
        key_name() != key_roles(),
{
    reveal_strlit("token_expire_date");
    reveal_strlit("token_key");
    reveal_strlit("user_name");
    reveal_strlit("user_roles");
    assert(key_expiry().len() == 17);
    assert(key_token().len() == 9);
    assert(key_name().len() == 9);
    assert(key_roles().len() == 10);
    assert(key_token()[0] == 't' && key_name()[0] == 'u');
}

/// A string literal starts with a quote.
proof fn lemma_quoted_starts_with_quote(content: Seq<char>)
    ensures
        quoted(content).len() >= 2,
        quoted(content)[0] == '"',
{
}

/// The elements of a non-empty array of roles, followed by the closing
/// bracket, are read back as the roles.
proof fn lemma_parse_role_list(s: Seq<char>, i: int, roles: Seq<UserRole>)
    requires
        roles.len() >= 1,
        has_at(s, i, roles_text(roles) + seq![']']),
    ensures
        parse_role_list(s, i) == Some((roles, i + roles_text(roles).len() + 1)),
    decreases roles.len(),
{
    let first = quoted(role_name(roles[0]));
    lemma_role_names(roles[0]);
    lemma_quoted_starts_with_quote(role_name(roles[0]));
    if roles.len() == 1 {
        lemma_has_at_split(s, i, first, seq![']']);
        lemma_parse_quoted(s, i, role_name(roles[0]));
        lemma_has_at_char(s, i + first.len(), seq![']'], 0);
        assert(seq![roles[0]] =~= roles);
    } else {
        let rest = roles.drop_first();
        let tail = seq![','] + (roles_text(rest) + seq![']']);
        assert(roles_text(roles) + seq![']'] =~= first + tail);
        lemma_has_at_split(s, i, first, tail);
        lemma_parse_quoted(s, i, role_name(roles[0]));
        lemma_has_at_split(s, i + first.len(), seq![','], roles_text(rest) + seq![']']);
        lemma_has_at_char(s, i + first.len(), seq![','], 0);
        lemma_parse_role_list(s, i + first.len() + 1, rest);
        assert(seq![roles[0]] + rest =~= roles);
    }
}

/// An array of roles is read back as the roles.
proof fn lemma_parse_roles(s: Seq<char>, i: int, roles: Seq<UserRole>)
    requires
        has_at(s, i, seq!['['] + roles_text(roles) + seq![']']),
    ensures
        parse_roles(s, i) == Some((roles, i + roles_text(roles).len() + 2)),
{
    let inner = roles_text(roles) + seq![']'];
    assert(seq!['['] + roles_text(roles) + seq![']'] =~= seq!['['] + inner);
    lemma_has_at_split(s, i, seq!['['], inner);
    lemma_has_at_char(s, i, seq!['['], 0);
    lemma_has_at_char(s, i + 1, inner, 0);
    if roles.len() == 0 {
        assert(roles =~= Seq::<UserRole>::empty());
    } else {
        lemma_quoted_starts_with_quote(role_name(roles[0]));
        lemma_parse_role_list(s, i + 1, roles);
    }
}

/// Where a member stands, its key is read, a colon follows, and its value
/// stands after the colon.
proof fn lemma_member_parts(s: Seq<char>, i: int, key: Seq<char>, value: Seq<char>)
    requires
        has_at(s, i, member_text(key, value)),
    ensures
        parse_string(s, i) == Some((key, i + quoted(key).len())),
        s[i + quoted(key).len()] == ':',
        0 <= i + quoted(key).len() < s.len(),
        has_at(s, i + quoted(key).len() + 1, value),
        member_text(key, value).len() == quoted(key).len() + 1 + value.len(),
{
    let label = quoted(key) + seq![':'];
    lemma_has_at_split(s, i, label, value);
    lemma_has_at_split(s, i, quoted(key), seq![':']);
    lemma_has_at_char(s, i + quoted(key).len(), seq![':'], 0);
    lemma_parse_quoted(s, i, key);
}

/// The member that holds the expiry is read back.
proof fn lemma_parse_expiry_member(s: Seq<char>, i: int, p: Partial, v: int)
    requires
        i64::MIN <= v <= i64::MAX,
        p.expiry is None,
        has_at(s, i, member_text(key_expiry(), decimal_text(v))),
        i + member_text(key_expiry(), decimal_text(v)).len() < s.len(),
        !is_digit(s[i + member_text(key_expiry(), decimal_text(v)).len()]),
    ensures
        parse_member(s, i, p) == Some(
            (
                Partial { expiry: Some(v), ..p },
                i + member_text(key_expiry(), decimal_text(v)).len(),
            ),
        ),
{
    lemma_member_parts(s, i, key_expiry(), decimal_text(v));
    lemma_parse_decimal(s, i + quoted(key_expiry()).len() + 1, v);
}

/// The member that holds the token key is read back.
proof fn lemma_parse_token_member(s: Seq<char>, i: int, p: Partial, v: Seq<char>)
    requires
        p.token is None,
        has_at(s, i, member_text(key_token(), quoted(v))),
    ensures
        parse_member(s, i, p) == Some(
            (Partial { token: Some(v), ..p }, i + member_text(key_token(), quoted(v)).len()),
        ),
{
    lemma_keys_differ();
    lemma_member_parts(s, i, key_token(), quoted(v));
    lemma_parse_quoted(s, i + quoted(key_token()).len() + 1, v);
}

/// The member that holds the name is read back.
proof fn lemma_parse_name_member(s: Seq<char>, i: int, p: Partial, v: Seq<char>)
    requires
        p.name is None,
        has_at(s, i, member_text(key_name(), quoted(v))),
    ensures
        parse_member(s, i, p) == Some(
            (Partial { name: Some(v), ..p }, i + member_text(key_name(), quoted(v)).len()),
        ),
{
    lemma_keys_differ();
    lemma_member_parts(s, i, key_name(), quoted(v));
    lemma_parse_quoted(s, i + quoted(key_name()).len() + 1, v);
}

/// The member that holds the roles is read back.
proof fn lemma_parse_roles_member(s: Seq<char>, i: int, p: Partial, v: Seq<UserRole>)
    requires
        p.roles is None,
        has_at(s, i, member_text(key_roles(), seq!['['] + roles_text(v) + seq![']'])),
    ensures
        parse_member(s, i, p) == Some(
            (
                Partial { roles: Some(v), ..p },
                i + member_text(key_roles(), seq!['['] + roles_text(v) + seq![']']).len(),
            ),
        ),
{
    lemma_keys_differ();
    lemma_member_parts(s, i, key_roles(), seq!['['] + roles_text(v) + seq![']']);
    lemma_parse_roles(s, i + quoted(key_roles()).len() + 1, v);
}

/// Where each of the four members stands in a payload that was written, and
/// what follows it.
proof fn lemma_claims_layout(m0: Seq<char>, m1: Seq<char>, m2: Seq<char>, m3: Seq<char>)
    ensures
        ({
            let t = seq!['{'] + m0 + seq![','] + m1 + seq![','] + m2 + seq![','] + m3 + seq!['}'];
            let at1: int = 1int + m0.len() + 1;
            let at2: int = at1 + m1.len() + 1;
            let at3: int = at2 + m2.len() + 1;
            &&& t.len() == at3 + m3.len() + 1
            &&& t[0] == '{'
            &&& has_at(t, 1, m0)
            &&& t[at1 - 1] == ','
            &&& has_at(t, at1, m1)
            &&& t[at2 - 1] == ','
            &&& has_at(t, at2, m2)
            &&& t[at3 - 1] == ','
            &&& has_at(t, at3, m3)
            &&& t[at3 + m3.len()] == '}'
        }),
{
    let comma = seq![','];
    let t = seq!['{'] + m0 + comma + m1 + comma + m2 + comma + m3 + seq!['}'];
    let at1: int = 1int + m0.len() + 1;
    let at2: int = at1 + m1.len() + 1;
    let at3: int = at2 + m2.len() + 1;
    assert(t.subrange(1, 1 + m0.len() as int) =~= m0);
    assert(t.subrange(at1, at1 + m1.len()) =~= m1);
    assert(t.subrange(at2, at2 + m2.len()) =~= m2);
    assert(t.subrange(at3, at3 + m3.len()) =~= m3);
}

/// Reading the payload that was written for some claims gives the claims
/// again.
pub proof fn lemma_parse_claims_text(c: Claims)
    requires
        i64::MIN <= c.token_expire_date <= i64::MAX,
    ensures
        parse_claims(claims_text(c)) == Some(c),
{
    let t = claims_text(c);
    let m0 = member_text(key_expiry(), decimal_text(c.token_expire_date));
    let m1 = member_text(key_token(), quoted(c.token_key));
    let m2 = member_text(key_name(), quoted(c.user_name));
    let m3 = member_text(key_roles(), seq!['['] + roles_text(c.user_roles) + seq![']']);
    let at0 = 1int;
    let at1 = at0 + m0.len() + 1;
    let at2 = at1 + m1.len() + 1;
    let at3 = at2 + m2.len() + 1;
    let r0 = nothing_read();
    let r1 = Partial { expiry: Some(c.token_expire_date), ..r0 };
    let r2 = Partial { token: Some(c.token_key), ..r1 };
    let r3 = Partial { name: Some(c.user_name), ..r2 };
    let r4 = Partial { roles: Some(c.user_roles), ..r3 };
    lemma_claims_layout(m0, m1, m2, m3);
    lemma_parse_expiry_member(t, at0, r0, c.token_expire_date);
    lemma_parse_token_member(t, at1, r1, c.token_key);
    lemma_parse_name_member(t, at2, r2, c.user_name);
    lemma_parse_roles_member(t, at3, r3, c.user_roles);
    assert(completed(r4) == Some(c));
    assert(parse_members(t, at3, r3) == Some(c));
    assert(parse_members(t, at2, r2) == Some(c));
    assert(parse_members(t, at1, r1) == Some(c));
    assert(parse_members(t, at0, r0) == Some(c));
}

} // verus!
