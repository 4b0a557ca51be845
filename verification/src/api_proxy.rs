//! The users of the proxy, the servers they are sent to, and the checks a
//! configuration of both has to pass.
use vstd::prelude::*;
use vstd::string::StringExecFns;
use crate::error::{info_err, is_info_error, TuliproxError, TuliproxErrorKind};
use crate::eval::join;
use crate::semantics::join_texts;
use crate::text::{concat2, is_unsigned_text, parse_u16, str_eq, trim, trim_char, trimmed, trimmed_of};
use crate::value::texts_view;

verus! {

/// How streams reach a user.
#[derive(Debug, Clone, Copy, PartialEq, Eq, Structural)]
pub enum ProxyType {
    Reverse,
    Redirect,
}

/// The state of a user account.
#[derive(Debug, Clone, Copy, PartialEq, Eq, Structural)]
pub enum ProxyUserStatus {
    Active,
    Expired,
    Banned,
    Trial,
    Disabled,
    Pending,
}

/// Whether a user may open one more connection.
#[derive(Debug, Clone, Copy, PartialEq, Eq, Structural)]
pub enum UserConnectionPermission {
    Exhausted,
    Allowed,
    GracePeriod,
}

/// The credentials of one user and the limits of the account.
#[derive(Debug)]
pub struct ProxyUserCredentials {
    pub username: String,
    pub password: String,
    pub token: Option<String>,
    pub proxy: ProxyType,
    pub server: Option<String>,
    pub epg_timeshift: Option<String>,
    pub created_at: Option<i64>,
    pub exp_date: Option<i64>,
    pub max_connections: u32,
    pub status: Option<ProxyUserStatus>,
    pub ui_enabled: bool,
    pub comment: Option<String>,
}

pub open spec fn opt_text(o: Option<String>) -> Option<Seq<char>> {
    match o {
        Some(s) => Some(s@),
        None => None,
    }
}

pub open spec fn opt_trimmed(o: Option<Seq<char>>) -> Option<Seq<char>> {
    match o {
        Some(s) => Some(trimmed(s)),
        None => None,
    }
}

fn clone_opt(o: &Option<String>) -> (r: Option<String>)
    ensures
        r == *o,
{
    match o {
        Some(s) => Some(s.clone()),
        None => None,
    }
}

/// What the credentials of a user stand for.
pub ghost struct CredentialsView {
    pub username: Seq<char>,
    pub password: Seq<char>,
    pub token: Option<Seq<char>>,
    pub proxy: ProxyType,
    pub server: Option<Seq<char>>,
    pub epg_timeshift: Option<Seq<char>>,
    pub created_at: Option<i64>,
    pub exp_date: Option<i64>,
    pub max_connections: u32,
    pub status: Option<ProxyUserStatus>,
    pub ui_enabled: bool,
    pub comment: Option<Seq<char>>,
}

impl View for ProxyUserCredentials {
    type V = CredentialsView;

    open spec fn view(&self) -> CredentialsView {
        CredentialsView {
            username: self.username@,
            password: self.password@,
            token: opt_text(self.token),
            proxy: self.proxy,
            server: opt_text(self.server),
            epg_timeshift: opt_text(self.epg_timeshift),
            created_at: self.created_at,
            exp_date: self.exp_date,
            max_connections: self.max_connections,
            status: self.status,
            ui_enabled: self.ui_enabled,
            comment: opt_text(self.comment),
        }
    }
}

impl Clone for ProxyUserCredentials {
    fn clone(&self) -> (r: Self)
        ensures
            r@ == self@,
    {
        ProxyUserCredentials {
            username: self.username.clone(),
            password: self.password.clone(),
            token: clone_opt(&self.token),
            proxy: self.proxy,
            server: clone_opt(&self.server),
            epg_timeshift: clone_opt(&self.epg_timeshift),
            created_at: self.created_at,
            exp_date: self.exp_date,
            max_connections: self.max_connections,
            status: self.status,
            ui_enabled: self.ui_enabled,
            comment: clone_opt(&self.comment),
        }
    }
}

/// The credentials with user name, password and token trimmed.
pub open spec fn trimmed_credentials(c: CredentialsView) -> CredentialsView {
    CredentialsView {
        username: trimmed(c.username),
        password: trimmed(c.password),
        token: opt_trimmed(c.token),
        ..c
    }
}

/// Whether the credentials carry this user name and password.
pub open spec fn credentials_match(c: CredentialsView, username: Seq<char>, password: Seq<char>) -> bool {
    c.username == username && c.password == password
}

/// Whether the credentials carry this token.
pub open spec fn token_matches(c: CredentialsView, token: Seq<char>) -> bool {
    c.token == Some(token)
}

/// Whether the account is active or on trial, or has no status at all.
pub open spec fn status_permits(status: Option<ProxyUserStatus>) -> bool {
    match status {
        Some(s) => s == ProxyUserStatus::Active || s == ProxyUserStatus::Trial,
        None => true,
    }
}

/// Whether a user has access at the time `now`: always where access is not
/// controlled, else while the account has not expired and its status permits.
pub open spec fn permitted_at(c: CredentialsView, user_access_control: bool, now: i64) -> bool {
    if user_access_control {
        (c.exp_date matches Some(exp) ==> exp >= now) && status_permits(c.status)
    } else {
        true
    }
}

/// Calls `chrono::Local::now` and `DateTime::timestamp`: the seconds since the
/// epoch on the clock. Nothing is claimed of the result.
#[verifier::external_body]
pub(crate) fn current_timestamp() -> (r: i64) {
    chrono::Local::now().timestamp()
}

impl ProxyUserCredentials {
    /// Trims user name, password and token.
    pub fn prepare(&mut self)
        ensures
            final(self)@ == trimmed_credentials(old(self)@),
    {
        self.trim();
    }

    /// Whether the user has this token.
    pub fn matches_token(&self, token: &str) -> (r: bool)
        ensures
            r == token_matches(self@, token@),
    {
        match &self.token {
            Some(tkn) => str_eq(tkn.as_str(), token),
            None => false,
        }
    }

    /// Whether the user has this name and password.
    pub fn matches(&self, username: &str, password: &str) -> (r: bool)
        ensures
            r == credentials_match(self@, username@, password@),
    {
        str_eq(self.username.as_str(), username) && str_eq(self.password.as_str(), password)
    }

    /// Trims user name, password and token.
    pub fn trim(&mut self)
        ensures
            final(self)@ == trimmed_credentials(old(self)@),
    {
        let username = trim(self.username.as_str());
        let password = trim(self.password.as_str());
        let token = match &self.token {
            None => None,
            Some(tkn) => Some(trim(tkn.as_str())),
        };
        self.username = username;
        self.password = password;
        self.token = token;
    }

    /// Requires a user name and a password.
    pub fn validate(&self) -> (r: Result<(), TuliproxError>)
        ensures
            self.username@.len() == 0 ==> is_info_error(r, "Username required"@),
            self.username@.len() > 0 && self.password@.len() == 0 ==> is_info_error(
                r,
                "Password required"@,
            ),
            self.username@.len() > 0 && self.password@.len() > 0 ==> r is Ok,
    {
        if self.username.as_str().unicode_len() == 0 {
            return Err(TuliproxError::new(TuliproxErrorKind::Info, "Username required".to_owned()));
        }
        if self.password.as_str().unicode_len() == 0 {
            return Err(TuliproxError::new(TuliproxErrorKind::Info, "Password required".to_owned()));
        }
        Ok(())
    }

    /// Whether the user has access at the time `now`.
    pub fn has_permissions_at(&self, user_access_control: bool, now: i64) -> (r: bool)
        ensures
            r == permitted_at(self@, user_access_control, now),
    {
        if user_access_control {
            match self.exp_date {
                Some(exp_date) => {
                    if exp_date < now {
                        return false;
                    }
                },
                None => {},
            }
            match self.status {
                Some(status) => {
                    match status {
                        ProxyUserStatus::Active => {},
                        ProxyUserStatus::Trial => {},
                        _ => {
                            return false;
                        },
                    }
                },
                None => {},
            }
        }
        true
    }

    /// Whether the user has access now: the answer for the time on the clock.
    pub fn has_permissions(&self, user_access_control: bool) -> (r: bool)
        ensures
            exists|now: i64| r == permitted_at(self@, user_access_control, now),
            !user_access_control ==> r,
            r ==> !user_access_control || status_permits(self.status),
    {
        let now = current_timestamp();
        self.has_permissions_at(user_access_control, now)
    }

    /// Whether the user has no access now.
    pub fn permission_denied(&self, user_access_control: bool) -> (r: bool)
        ensures
            exists|now: i64| r == !permitted_at(self@, user_access_control, now),
            !user_access_control ==> !r,
    {
        !self.has_permissions(user_access_control)
    }
}

/// The users of one target.
#[derive(Debug)]
pub struct TargetUser {
    pub target: String,
    pub credentials: Vec<ProxyUserCredentials>,
}

pub open spec fn credentials_view(s: Seq<ProxyUserCredentials>) -> Seq<CredentialsView> {
    s.map_values(|c: ProxyUserCredentials| c@)
}

/// What the users of one target stand for.
pub ghost struct TargetUserView {
    pub target: Seq<char>,
    pub credentials: Seq<CredentialsView>,
}

impl View for TargetUser {
    type V = TargetUserView;

    open spec fn view(&self) -> TargetUserView {
        TargetUserView { target: self.target@, credentials: credentials_view(self.credentials@) }
    }
}

/// Index of the first credentials from `i` on with this name and password.
pub open spec fn first_match(
    creds: Seq<CredentialsView>,
    username: Seq<char>,
    password: Seq<char>,
    i: int,
) -> Option<int>
    decreases creds.len() - i,
{
    if i < 0 || i >= creds.len() {
        None
    } else if credentials_match(creds[i], username, password) {
        Some(i)
    } else {
        first_match(creds, username, password, i + 1)
    }
}

/// Index of the first credentials from `i` on with this token.
pub open spec fn first_token_match(creds: Seq<CredentialsView>, token: Seq<char>, i: int) -> Option<
    int,
>
    decreases creds.len() - i,
{
    if i < 0 || i >= creds.len() {
        None
    } else if token_matches(creds[i], token) {
        Some(i)
    } else {
        first_token_match(creds, token, i + 1)
    }
}

/// Index of the first credentials from `i` on with this user name.
pub open spec fn first_named(creds: Seq<CredentialsView>, username: Seq<char>, i: int) -> Option<int>
    decreases creds.len() - i,
{
    if i < 0 || i >= creds.len() {
        None
    } else if creds[i].username == username {
        Some(i)
    } else {
        first_named(creds, username, i + 1)
    }
}

impl TargetUser {
    /// The first credentials with this name and password, and the target.
    pub fn get_target_name(&self, username: &str, password: &str) -> (r: Option<
        (&ProxyUserCredentials, &str),
    >)
        ensures
            match first_match(self@.credentials, username@, password@, 0) {
                Some(i) => r matches Some((c, t)) && 0 <= i < self.credentials@.len() && *c
                    == self.credentials@[i] && t@ == self.target@,
                None => r is None,
            },
    {
        let ghost creds = self@.credentials;
        let mut i: usize = 0;
        while i < self.credentials.len()
            invariant
                i <= self.credentials.len(),
                creds == credentials_view(self.credentials@),
                first_match(creds, username@, password@, 0) == first_match(
                    creds,
                    username@,
                    password@,
                    i as int,
                ),
            decreases self.credentials.len() - i,
        {
            assert(creds[i as int] == self.credentials@[i as int]@);
            if self.credentials[i].matches(username, password) {
                return Some((&self.credentials[i], self.target.as_str()));
            }
            i += 1;
        }
        None
    }

    /// The first credentials with this token, and the target.
    pub fn get_target_name_by_token(&self, token: &str) -> (r: Option<
        (&ProxyUserCredentials, &str),
    >)
        ensures
            match first_token_match(self@.credentials, token@, 0) {
                Some(i) => r matches Some((c, t)) && 0 <= i < self.credentials@.len() && *c
                    == self.credentials@[i] && t@ == self.target@,
                None => r is None,
            },
    {
        let ghost creds = self@.credentials;
        let mut i: usize = 0;
        while i < self.credentials.len()
            invariant
                i <= self.credentials.len(),
                creds == credentials_view(self.credentials@),
                first_token_match(creds, token@, 0) == first_token_match(creds, token@, i as int),
            decreases self.credentials.len() - i,
        {
            assert(creds[i as int] == self.credentials@[i as int]@);
            if self.credentials[i].matches_token(token) {
                return Some((&self.credentials[i], self.target.as_str()));
            }
            i += 1;
        }
        None
    }

    /// The first credentials with this user name.
    pub fn find_user(&self, username: &str) -> (r: Option<&ProxyUserCredentials>)
        ensures
            match first_named(self@.credentials, username@, 0) {
                Some(i) => r matches Some(c) && 0 <= i < self.credentials@.len() && *c
                    == self.credentials@[i],
                None => r is None,
            },
    {
        let ghost creds = self@.credentials;
        let mut i: usize = 0;
        while i < self.credentials.len()
            invariant
                i <= self.credentials.len(),
                creds == credentials_view(self.credentials@),
                first_named(creds, username@, 0) == first_named(creds, username@, i as int),
            decreases self.credentials.len() - i,
        {
            assert(creds[i as int] == self.credentials@[i as int]@);
            if str_eq(self.credentials[i].username.as_str(), username) {
                return Some(&self.credentials[i]);
            }
            i += 1;
        }
        None
    }
}

/// What the description of a server stands for.
pub ghost struct ServerView {
    pub name: Seq<char>,
    pub protocol: Seq<char>,
    pub host: Seq<char>,
    pub port: Option<Seq<char>>,
    pub timezone: Seq<char>,
    pub message: Seq<char>,
    pub path: Option<Seq<char>>,
}

/// A port text: a number that fits sixteen bits.
pub open spec fn valid_port(port: Seq<char>) -> bool {
    is_unsigned_text(port, 65535)
}

/// A text, or the default where it is empty.
pub open spec fn or_default(s: Seq<char>, default: Seq<char>) -> Seq<char> {
    if s.len() == 0 {
        default
    } else {
        s
    }
}

/// A trimmed optional text; an empty one counts as absent.
pub open spec fn trimmed_or_none(o: Option<Seq<char>>) -> Option<Seq<char>> {
    match o {
        Some(s) => if trimmed(s).len() == 0 {
            None
        } else {
            Some(trimmed(s))
        },
        None => None,
    }
}

pub open spec fn msg_name_empty() -> Seq<char> {
    "Server info name is empty "@
}

pub open spec fn msg_protocol_empty() -> Seq<char> {
    "protocol cant be empty for api server config"@
}

pub open spec fn msg_host_empty() -> Seq<char> {
    "host cant be empty for api server config"@
}

pub open spec fn msg_invalid_port() -> Seq<char> {
    "invalid port for api server config"@
}

/// The server description after it has been prepared, and the error that
/// stopped the preparation, if any. The fields are trimmed in the order name,
/// protocol, host, port, time zone, path; an empty name, protocol or host or a
/// port that is no number stops the preparation where it stands.
pub open spec fn prepared_server(s: ServerView) -> (ServerView, Option<Seq<char>>) {
    let s1 = ServerView { name: trimmed(s.name), ..s };
    if s1.name.len() == 0 {
        (s1, Some(msg_name_empty()))
    } else {
        let s2 = ServerView { protocol: trimmed(s.protocol), ..s1 };
        if s2.protocol.len() == 0 {
            (s2, Some(msg_protocol_empty()))
        } else {
            let s3 = ServerView { host: trimmed(s.host), ..s2 };
            if s3.host.len() == 0 {
                (s3, Some(msg_host_empty()))
            } else if s.port is Some && trimmed(s.port.unwrap()).len() > 0 && !valid_port(
                trimmed(s.port.unwrap()),
            ) {
                (s3, Some(msg_invalid_port()))
            } else {
                (
                    ServerView {
                        port: trimmed_or_none(s.port),
                        timezone: or_default(trimmed(s.timezone), "UTC"@),
                        message: or_default(s.message, "Welcome to tuliprox"@),
                        path: trimmed_or_none(s.path),
                        ..s3
                    },
                    None,
                )
            }
        }
    }
}

fn is_empty_text(s: &str) -> (r: bool)
    ensures
        r == (s@.len() == 0),
{
    s.unicode_len() == 0
}

/// Prepares the fields of a server description in place.
pub fn prepare_server_fields(
    name: &mut String,
    protocol: &mut String,
    host: &mut String,
    port: &mut Option<String>,
    timezone: &mut String,
    message: &mut String,
    path: &mut Option<String>,
) -> (r: Result<(), TuliproxError>)
    ensures
        ({
            let before = ServerView {
                name: old(name)@,
                protocol: old(protocol)@,
                host: old(host)@,
                port: opt_text(*old(port)),
                timezone: old(timezone)@,
                message: old(message)@,
                path: opt_text(*old(path)),
            };
            let after = ServerView {
                name: final(name)@,
                protocol: final(protocol)@,
                host: final(host)@,
                port: opt_text(*final(port)),
                timezone: final(timezone)@,
                message: final(message)@,
                path: opt_text(*final(path)),
            };
            &&& after == prepared_server(before).0
            &&& match prepared_server(before).1 {
                Some(msg) => is_info_error(r, msg),
                None => r is Ok,
            }
        }),
{
    *name = trim(name.as_str());
    if is_empty_text(name.as_str()) {
        return Err(info_err("Server info name is empty ".to_owned()));
    }
    *protocol = trim(protocol.as_str());
    if is_empty_text(protocol.as_str()) {
        return Err(info_err("protocol cant be empty for api server config".to_owned()));
    }
    *host = trim(host.as_str());
    if is_empty_text(host.as_str()) {
        return Err(info_err("host cant be empty for api server config".to_owned()));
    }
    let new_port: Option<String> = match &*port {
        Some(p) => {
            let trimmed_port = trim(p.as_str());
            if is_empty_text(trimmed_port.as_str()) {
                None
            } else if parse_u16(trimmed_port.as_str()).is_none() {
                return Err(info_err("invalid port for api server config".to_owned()));
            } else {
                Some(trimmed_port)
            }
        },
        None => None,
    };
    *port = new_port;
    *timezone = trim(timezone.as_str());
    if is_empty_text(timezone.as_str()) {
        *timezone = "UTC".to_owned();
    }
    if is_empty_text(message.as_str()) {
        *message = "Welcome to tuliprox".to_owned();
    }
    let new_path: Option<String> = match &*path {
        Some(p) => {
            let trimmed_path = trim(p.as_str());
            if is_empty_text(trimmed_path.as_str()) {
                None
            } else {
                Some(trimmed_path)
            }
        },
        None => None,
    };
    *path = new_path;
    Ok(())
}

/// The base address a server description gives: protocol and host, then the
/// port and the path without its outer slashes, where there are any.
pub open spec fn base_url(s: ServerView) -> Seq<char> {
    let base = match s.port {
        Some(port) => s.protocol + "://"@ + s.host + ":"@ + port,
        None => s.protocol + "://"@ + s.host,
    };
    match s.path {
        Some(path) => base + "/"@ + trimmed_of(path, '/'),
        None => base,
    }
}

/// Builds the base address from the fields of a server description.
pub fn build_base_url(protocol: &str, host: &str, port: &Option<String>, path: &Option<String>) -> (r:
    String)
    ensures
        r@ == base_url(
            ServerView {
                name: Seq::empty(),
                protocol: protocol@,
                host: host@,
                port: opt_text(*port),
                timezone: Seq::empty(),
                message: Seq::empty(),
                path: opt_text(*path),
            },
        ),
{
    let mut out = protocol.to_owned();
    out.append("://");
    out.append(host);
    match port {
        Some(p) => {
            out.append(":");
            out.append(p.as_str());
        },
        None => {},
    }
    match path {
        Some(p) => {
            out.append("/");
            out.append(trim_char(p.as_str(), '/').as_str());
        },
        None => {},
    }
    out
}

/// The description of a server that users are sent to.
#[derive(Debug, Clone)]
pub struct ApiProxyServerInfo {
    pub name: String,
    pub protocol: String,
    pub host: String,
    pub port: Option<String>,
    pub timezone: String,
    pub message: String,
    pub path: Option<String>,
}

impl View for ApiProxyServerInfo {
    type V = ServerView;

    open spec fn view(&self) -> ServerView {
        ServerView {
            name: self.name@,
            protocol: self.protocol@,
            host: self.host@,
            port: opt_text(self.port),
            timezone: self.timezone@,
            message: self.message@,
            path: opt_text(self.path),
        }
    }
}

impl ApiProxyServerInfo {
    /// Trims the fields, fills in the defaults, and rejects an empty name,
    /// protocol or host and a port that is no number.
    pub fn prepare(&mut self) -> (r: Result<(), TuliproxError>)
        ensures
            final(self)@ == prepared_server(old(self)@).0,
            match prepared_server(old(self)@).1 {
                Some(msg) => is_info_error(r, msg),
                None => r is Ok,
            },
    {
        prepare_server_fields(
            &mut self.name,
            &mut self.protocol,
            &mut self.host,
            &mut self.port,
            &mut self.timezone,
            &mut self.message,
            &mut self.path,
        )
    }

    /// Prepares the description and says whether that went well.
    pub fn validate(&mut self) -> (r: bool)
        ensures
            final(self)@ == prepared_server(old(self)@).0,
            r == prepared_server(old(self)@).1 is None,
    {
        self.prepare().is_ok()
    }

    /// The base address of the server.
    pub fn get_base_url(&self) -> (r: String)
        ensures
            r@ == base_url(self@),
    {
        build_base_url(self.protocol.as_str(), self.host.as_str(), &self.port, &self.path)
    }
}

/// The credentials of a user after preparation: trimmed, and an empty token
/// dropped.
pub open spec fn prepared_user(c: CredentialsView) -> CredentialsView {
    let t = trimmed_credentials(c);
    if t.token == Some(Seq::<char>::empty()) {
        CredentialsView { token: None, ..t }
    } else {
        t
    }
}

pub open spec fn msg_non_unique_server(name: Seq<char>) -> Seq<char> {
    "Non-unique server info name found "@ + name
}

pub open spec fn msg_non_unique_username(name: Seq<char>) -> Seq<char> {
    "Non unique username found "@ + name
}

pub open spec fn msg_non_unique_token(name: Seq<char>) -> Seq<char> {
    "Non unique token found "@ + name
}

pub open spec fn msg_unknown_server(server: Seq<char>, user: Seq<char>) -> Seq<char> {
    "No server info with name "@ + server + " found for user "@ + user
}

/// What a pass over the users has gathered: the user names and tokens seen,
/// and the complaints.
pub ghost struct UserPass {
    pub usernames: Seq<Seq<char>>,
    pub tokens: Seq<Seq<char>>,
    pub errors: Seq<Seq<char>>,
}

/// The pass after one more user: a user name or token seen before is a
/// complaint, and so is a server that is not among `servers`.
pub open spec fn user_step(c: CredentialsView, servers: Seq<Seq<char>>, p: UserPass) -> UserPass {
    let u = prepared_user(c);
    let named = if p.usernames.contains(u.username) {
        UserPass { errors: p.errors.push(msg_non_unique_username(u.username)), ..p }
    } else {
        UserPass { usernames: p.usernames.push(u.username), ..p }
    };
    let tokened = match u.token {
        Some(token) => if named.tokens.contains(token) {
            UserPass { errors: named.errors.push(msg_non_unique_token(u.username)), ..named }
        } else {
            UserPass { tokens: named.tokens.push(token), ..named }
        },
        None => named,
    };
    match u.server {
        Some(server) => if servers.contains(server) {
            tokened
        } else {
            UserPass { errors: tokened.errors.push(msg_unknown_server(server, u.username)), ..tokened }
        },
        None => tokened,
    }
}

/// The pass after the users from `i` on.
pub open spec fn users_pass(
    creds: Seq<CredentialsView>,
    i: int,
    servers: Seq<Seq<char>>,
    p: UserPass,
) -> UserPass
    decreases creds.len() - i,
{
    if i < 0 || i >= creds.len() {
        p
    } else {
        users_pass(creds, i + 1, servers, user_step(creds[i], servers, p))
    }
}

/// The pass after the users of the targets from `i` on.
pub open spec fn targets_pass(
    targets: Seq<TargetUserView>,
    i: int,
    servers: Seq<Seq<char>>,
    p: UserPass,
) -> UserPass
    decreases targets.len() - i,
{
    if i < 0 || i >= targets.len() {
        p
    } else {
        targets_pass(targets, i + 1, servers, users_pass(targets[i].credentials, 0, servers, p))
    }
}

/// The users of a target, each prepared.
pub open spec fn prepared_target(t: TargetUserView) -> TargetUserView {
    TargetUserView {
        target: t.target,
        credentials: t.credentials.map_values(|c: CredentialsView| prepared_user(c)),
    }
}

/// What a pass over the servers has gathered: the names seen and the
/// complaints.
pub ghost struct ServerPass {
    pub names: Seq<Seq<char>>,
    pub errors: Seq<Seq<char>>,
}

/// The pass after one more server: what stopped its preparation is a
/// complaint, and so is a name seen before.
pub open spec fn server_step(s: ServerView, p: ServerPass) -> ServerPass {
    let (after, failure) = prepared_server(s);
    let errors = match failure {
        Some(msg) => p.errors.push(msg),
        None => p.errors,
    };
    if p.names.contains(after.name) {
        ServerPass { names: p.names, errors: errors.push(msg_non_unique_server(after.name)) }
    } else {
        ServerPass { names: p.names.push(after.name), errors }
    }
}

/// The pass after the servers from `i` on.
pub open spec fn servers_pass(servers: Seq<ServerView>, i: int, p: ServerPass) -> ServerPass
    decreases servers.len() - i,
{
    if i < 0 || i >= servers.len() {
        p
    } else {
        servers_pass(servers, i + 1, server_step(servers[i], p))
    }
}

/// The pass over the servers, as it stands in the two lists.
pub open spec fn server_pass_of(names: Seq<String>, errors: Seq<String>) -> ServerPass {
    ServerPass { names: texts_view(names), errors: texts_view(errors) }
}

/// Whether a list of texts holds a given text.
pub fn contains_text(list: &Vec<String>, text: &str) -> (r: bool)
    ensures
        r == texts_view(list@).contains(text@),
{
    let ghost all = texts_view(list@);
    let mut i: usize = 0;
    while i < list.len()
        invariant
            i <= list.len(),
            all == texts_view(list@),
            forall|j: int| 0 <= j < i ==> all[j] != text@,
        decreases list.len() - i,
    {
        assert(all[i as int] == list@[i as int]@);
        if str_eq(list[i].as_str(), text) {
            return true;
        }
        i += 1;
    }
    false
}

fn push_text(list: &mut Vec<String>, text: String)
    ensures
        texts_view(final(list)@) == texts_view(old(list)@).push(text@),
{
    list.push(text);
    assert(texts_view(list@) =~= texts_view(old(list)@).push(text@));
}

/// The pass of one user, as it stands in the three lists.
pub open spec fn pass_of(usernames: Seq<String>, tokens: Seq<String>, errors: Seq<String>) -> UserPass {
    UserPass {
        usernames: texts_view(usernames),
        tokens: texts_view(tokens),
        errors: texts_view(errors),
    }
}

/// Prepares one user and checks it against what was seen before.
pub fn prepare_user(
    user: &mut ProxyUserCredentials,
    server_names: &Vec<String>,
    usernames: &mut Vec<String>,
    tokens: &mut Vec<String>,
    errors: &mut Vec<String>,
)
    ensures
        final(user)@ == prepared_user(old(user)@),
        pass_of(final(usernames)@, final(tokens)@, final(errors)@) == user_step(
            old(user)@,
            texts_view(server_names@),
            pass_of(old(usernames)@, old(tokens)@, old(errors)@),
        ),
{
    user.prepare();
    if contains_text(usernames, user.username.as_str()) {
        push_text(errors, concat2("Non unique username found ", user.username.as_str()));
    } else {
        push_text(usernames, user.username.clone());
    }
    let mut drop_token = false;
    match &user.token {
        Some(token) => {
            if is_empty_text(token.as_str()) {
                drop_token = true;
                assert(token@ =~= Seq::<char>::empty());
            } else if contains_text(tokens, token.as_str()) {
                push_text(errors, concat2("Non unique token found ", user.username.as_str()));
            } else {
                push_text(tokens, token.clone());
            }
        },
        None => {},
    }
    if drop_token {
        user.token = None;
    }
    match &user.server {
        Some(server_info_name) => {
            if !contains_text(server_names, server_info_name.as_str()) {
                let head = concat2("No server info with name ", server_info_name.as_str());
                let text = concat2(head.as_str(), " found for user ");
                push_text(errors, concat2(text.as_str(), user.username.as_str()));
            }
        },
        None => {},
    }
}

/// Prepares the users of one target and checks them against what was seen
/// before.
pub fn prepare_users(
    creds: &mut Vec<ProxyUserCredentials>,
    server_names: &Vec<String>,
    usernames: &mut Vec<String>,
    tokens: &mut Vec<String>,
    errors: &mut Vec<String>,
)
    ensures
        credentials_view(final(creds)@) == credentials_view(old(creds)@).map_values(
            |c: CredentialsView| prepared_user(c),
        ),
        pass_of(final(usernames)@, final(tokens)@, final(errors)@) == users_pass(
            credentials_view(old(creds)@),
            0,
            texts_view(server_names@),
            pass_of(old(usernames)@, old(tokens)@, old(errors)@),
        ),
{
    let ghost before = credentials_view(creds@);
    let ghost servers = texts_view(server_names@);
    let ghost first = pass_of(usernames@, tokens@, errors@);
    let mut i: usize = 0;
    while i < creds.len()
        invariant
            i <= creds.len(),
            creds.len() == before.len(),
            servers == texts_view(server_names@),
            forall|j: int| 0 <= j < i ==> (#[trigger] creds@[j])@ == prepared_user(before[j]),
            forall|j: int| i <= j < creds.len() ==> (#[trigger] creds@[j])@ == before[j],
            users_pass(before, i as int, servers, pass_of(usernames@, tokens@, errors@))
                == users_pass(before, 0, servers, first),
        decreases creds.len() - i,
    {
        prepare_user(&mut creds[i], server_names, usernames, tokens, errors);
        i += 1;
    }
    assert(credentials_view(creds@) =~= before.map_values(|c: CredentialsView| prepared_user(c)));
}

pub open spec fn servers_view(s: Seq<ApiProxyServerInfo>) -> Seq<ServerView> {
    s.map_values(|x: ApiProxyServerInfo| x@)
}

pub open spec fn targets_view(s: Seq<TargetUser>) -> Seq<TargetUserView> {
    s.map_values(|x: TargetUser| x@)
}

/// The names of a list of servers.
pub open spec fn server_names(servers: Seq<ServerView>) -> Seq<Seq<char>> {
    servers.map_values(|s: ServerView| s.name)
}

/// The servers, each prepared.
pub open spec fn prepared_servers(servers: Seq<ServerView>) -> Seq<ServerView> {
    servers.map_values(|s: ServerView| prepared_server(s).0)
}

/// What a configuration stands for.
pub ghost struct ConfigView {
    pub server: Seq<ServerView>,
    pub user: Seq<TargetUserView>,
    pub use_user_db: bool,
}

/// The complaints about the servers of a configuration.
pub open spec fn server_complaints(servers: Seq<ServerView>) -> Seq<Seq<char>> {
    if servers.len() == 0 {
        seq!["No server info defined"@]
    } else {
        servers_pass(servers, 0, server_pass_of(Seq::empty(), Seq::empty())).errors
    }
}

/// The servers of a configuration after preparation.
pub open spec fn servers_after(servers: Seq<ServerView>) -> Seq<ServerView> {
    prepared_servers(servers)
}

/// All complaints about a configuration: those about the servers, then those
/// about the users, checked against the prepared servers.
pub open spec fn config_complaints(c: ConfigView) -> Seq<Seq<char>> {
    targets_pass(
        c.user,
        0,
        server_names(servers_after(c.server)),
        UserPass {
            usernames: texts_view(Seq::empty()),
            tokens: texts_view(Seq::empty()),
            errors: server_complaints(c.server),
        },
    ).errors
}

/// The configuration after preparation.
pub open spec fn prepared_config(c: ConfigView) -> ConfigView {
    ConfigView {
        server: servers_after(c.server),
        user: c.user.map_values(|t: TargetUserView| prepared_target(t)),
        use_user_db: c.use_user_db,
    }
}

/// Index of the first target from `i` on that has credentials with this name
/// and password.
pub open spec fn first_target(
    targets: Seq<TargetUserView>,
    username: Seq<char>,
    password: Seq<char>,
    i: int,
) -> Option<int>
    decreases targets.len() - i,
{
    if i < 0 || i >= targets.len() {
        None
    } else if first_match(targets[i].credentials, username, password, 0) is Some {
        Some(i)
    } else {
        first_target(targets, username, password, i + 1)
    }
}

/// Index of the first target from `i` on that has credentials with this token.
pub open spec fn first_target_by_token(targets: Seq<TargetUserView>, token: Seq<char>, i: int) -> Option<
    int,
>
    decreases targets.len() - i,
{
    if i < 0 || i >= targets.len() {
        None
    } else if first_token_match(targets[i].credentials, token, 0) is Some {
        Some(i)
    } else {
        first_target_by_token(targets, token, i + 1)
    }
}

/// Index of the first target from `i` on that has a user of this name.
pub open spec fn first_target_of_user(targets: Seq<TargetUserView>, username: Seq<char>, i: int) -> Option<
    int,
>
    decreases targets.len() - i,
{
    if i < 0 || i >= targets.len() {
        None
    } else if first_named(targets[i].credentials, username, 0) is Some {
        Some(i)
    } else {
        first_target_of_user(targets, username, i + 1)
    }
}

/// The servers and the users of the proxy.
#[derive(Debug)]
pub struct ApiProxyConfig {
    pub server: Vec<ApiProxyServerInfo>,
    pub user: Vec<TargetUser>,
    pub use_user_db: bool,
}

impl View for ApiProxyConfig {
    type V = ConfigView;

    open spec fn view(&self) -> ConfigView {
        ConfigView {
            server: servers_view(self.server@),
            user: targets_view(self.user@),
            use_user_db: self.use_user_db,
        }
    }
}

impl ApiProxyConfig {
    /// Prepares every server and gathers the complaints about them.
    pub fn prepare_server_config(&mut self, errors: &mut Vec<String>) -> (names: Vec<String>)
        ensures
            final(self)@.server == prepared_servers(old(self)@.server),
            final(self).user == old(self).user,
            final(self).use_user_db == old(self).use_user_db,
            server_pass_of(names@, final(errors)@) == servers_pass(
                old(self)@.server,
                0,
                server_pass_of(Seq::empty(), old(errors)@),
            ),
    {
        let ghost before = servers_view(self.server@);
        let ghost first = server_pass_of(Seq::empty(), errors@);
        let mut name_set: Vec<String> = Vec::new();
        let mut i: usize = 0;
        assert(texts_view(name_set@) =~= Seq::<Seq<char>>::empty());
        assert(texts_view(Seq::<String>::empty()) =~= Seq::<Seq<char>>::empty());
        while i < self.server.len()
            invariant
                i <= self.server.len(),
                self.server.len() == before.len(),
                self.user == old(self).user,
                self.use_user_db == old(self).use_user_db,
                forall|j: int| 0 <= j < i ==> (#[trigger] self.server@[j])@ == prepared_server(before[j]).0,
                forall|j: int| i <= j < self.server.len() ==> (#[trigger] self.server@[j])@ == before[j],
                servers_pass(before, i as int, server_pass_of(name_set@, errors@)) == servers_pass(
                    before,
                    0,
                    first,
                ),
            decreases self.server.len() - i,
        {
            match self.server[i].prepare() {
                Err(err) => {
                    push_text(errors, err.to_string());
                },
                Ok(_) => {},
            }
            if contains_text(&name_set, self.server[i].name.as_str()) {
                push_text(
                    errors,
                    concat2("Non-unique server info name found ", self.server[i].name.as_str()),
                );
            } else {
                push_text(&mut name_set, self.server[i].name.clone());
            }
            i += 1;
        }
        assert(servers_view(self.server@) =~= prepared_servers(before));
        name_set
    }

    /// The names of the servers.
    pub fn collect_server_names(&self) -> (names: Vec<String>)
        ensures
            texts_view(names@) == server_names(self@.server),
    {
        let mut names: Vec<String> = Vec::new();
        let mut i: usize = 0;
        while i < self.server.len()
            invariant
                i <= self.server.len(),
                names.len() == i,
                forall|j: int| 0 <= j < i ==> (#[trigger] names@[j])@ == self.server@[j].name@,
            decreases self.server.len() - i,
        {
            names.push(self.server[i].name.clone());
            i += 1;
        }
        assert(texts_view(names@) =~= server_names(self@.server));
        names
    }

    /// Prepares every user and gathers the complaints about them.
    pub fn prepare_target_user(&mut self, errors: &mut Vec<String>)
        ensures
            final(self)@.user == old(self)@.user.map_values(|t: TargetUserView| prepared_target(t)),
            final(self).server == old(self).server,
            final(self).use_user_db == old(self).use_user_db,
            texts_view(final(errors)@) == targets_pass(
                old(self)@.user,
                0,
                server_names(old(self)@.server),
                pass_of(Seq::empty(), Seq::empty(), old(errors)@),
            ).errors,
    {
        let ghost before = targets_view(self.user@);
        let server_names = self.collect_server_names();
        let ghost servers = texts_view(server_names@);
        let mut usernames: Vec<String> = Vec::new();
        let mut tokens: Vec<String> = Vec::new();
        let ghost first = pass_of(usernames@, tokens@, errors@);
        assert(texts_view(usernames@) =~= Seq::<Seq<char>>::empty());
        assert(texts_view(tokens@) =~= Seq::<Seq<char>>::empty());
        let mut t: usize = 0;
        while t < self.user.len()
            invariant
                t <= self.user.len(),
                self.user.len() == before.len(),
                self.server == old(self).server,
                self.use_user_db == old(self).use_user_db,
                servers == texts_view(server_names@),
                forall|j: int| 0 <= j < t ==> (#[trigger] self.user@[j])@ == prepared_target(before[j]),
                forall|j: int| t <= j < self.user.len() ==> (#[trigger] self.user@[j])@ == before[j],
                targets_pass(before, t as int, servers, pass_of(usernames@, tokens@, errors@))
                    == targets_pass(before, 0, servers, first),
            decreases self.user.len() - t,
        {
            prepare_users(
                &mut self.user[t].credentials,
                &server_names,
                &mut usernames,
                &mut tokens,
                errors,
            );
            t += 1;
        }
        assert(targets_view(self.user@) =~= before.map_values(
            |t: TargetUserView| prepared_target(t),
        ));
    }

    /// Prepares servers and users; the complaints, one per line, are the error.
    pub fn prepare(&mut self) -> (r: Result<(), TuliproxError>)
        ensures
            final(self)@ == prepared_config(old(self)@),
            config_complaints(old(self)@).len() == 0 ==> r is Ok,
            config_complaints(old(self)@).len() > 0 ==> is_info_error(
                r,
                join_texts(config_complaints(old(self)@), "\n"@),
            ),
    {
        let mut errors: Vec<String> = Vec::new();
        assert(texts_view(errors@) =~= Seq::<Seq<char>>::empty());
        if self.server.len() == 0 {
            push_text(&mut errors, "No server info defined".to_owned());
            assert(servers_view(self.server@) =~= prepared_servers(old(self)@.server));
        } else {
            let _names = self.prepare_server_config(&mut errors);
        }
        self.prepare_target_user(&mut errors);
        if errors.len() == 0 {
            Ok(())
        } else {
            Err(info_err(join(&errors, "\n")))
        }
    }

    /// The first credentials with this name and password, and their target.
    pub fn get_target_name(&self, username: &str, password: &str) -> (r: Option<
        (ProxyUserCredentials, String),
    >)
        ensures
            match first_target(self@.user, username@, password@, 0) {
                Some(t) => r matches Some((c, name)) && c@ == self@.user[t].credentials[first_match(
                    self@.user[t].credentials,
                    username@,
                    password@,
                    0,
                ).unwrap()] && name@ == self@.user[t].target,
                None => r is None,
            },
    {
        let ghost targets = self@.user;
        let mut i: usize = 0;
        while i < self.user.len()
            invariant
                i <= self.user.len(),
                targets == targets_view(self.user@),
                first_target(targets, username@, password@, 0) == first_target(
                    targets,
                    username@,
                    password@,
                    i as int,
                ),
            decreases self.user.len() - i,
        {
            assert(targets[i as int] == self.user@[i as int]@);
            match self.user[i].get_target_name(username, password) {
                Some((credentials, target_name)) => {
                    proof {
                        let k = first_match(targets[i as int].credentials, username@, password@, 0).unwrap();
                        assert(targets[i as int].credentials[k] == self.user@[i as int].credentials@[k]@);
                    }
                    return Some((credentials.clone(), target_name.to_owned()));
                },
                None => {},
            }
            i += 1;
        }
        None
    }

    /// The first credentials with this token, and their target.
    pub fn get_target_name_by_token(&self, token: &str) -> (r: Option<
        (ProxyUserCredentials, String),
    >)
        ensures
            match first_target_by_token(self@.user, token@, 0) {
                Some(t) => r matches Some((c, name)) && c@
                    == self@.user[t].credentials[first_token_match(
                    self@.user[t].credentials,
                    token@,
                    0,
                ).unwrap()] && name@ == self@.user[t].target,
                None => r is None,
            },
    {
        let ghost targets = self@.user;
        let mut i: usize = 0;
        while i < self.user.len()
            invariant
                i <= self.user.len(),
                targets == targets_view(self.user@),
                first_target_by_token(targets, token@, 0) == first_target_by_token(
                    targets,
                    token@,
                    i as int,
                ),
            decreases self.user.len() - i,
        {
            assert(targets[i as int] == self.user@[i as int]@);
            match self.user[i].get_target_name_by_token(token) {
                Some((credentials, target_name)) => {
                    proof {
                        let k = first_token_match(targets[i as int].credentials, token@, 0).unwrap();
                        assert(targets[i as int].credentials[k] == self.user@[i as int].credentials@[k]@);
                    }
                    return Some((credentials.clone(), target_name.to_owned()));
                },
                None => {},
            }
            i += 1;
        }
        None
    }

    /// The first credentials with this user name, over all targets in order.
    pub fn get_user_credentials(&self, username: &str) -> (r: Option<ProxyUserCredentials>)
        ensures
            match first_target_of_user(self@.user, username@, 0) {
                Some(t) => r matches Some(c) && c@ == self@.user[t].credentials[first_named(
                    self@.user[t].credentials,
                    username@,
                    0,
                ).unwrap()],
                None => r is None,
            },
    {
        let ghost targets = self@.user;
        let mut i: usize = 0;
        while i < self.user.len()
            invariant
                i <= self.user.len(),
                targets == targets_view(self.user@),
                first_target_of_user(targets, username@, 0) == first_target_of_user(
                    targets,
                    username@,
                    i as int,
                ),
            decreases self.user.len() - i,
        {
            assert(targets[i as int] == self.user@[i as int]@);
            match self.user[i].find_user(username) {
                Some(credentials) => {
                    proof {
                        let k = first_named(targets[i as int].credentials, username@, 0).unwrap();
                        assert(targets[i as int].credentials[k] == self.user@[i as int].credentials@[k]@);
                    }
                    return Some(credentials.clone());
                },
                None => {},
            }
            i += 1;
        }
        None
    }
}

/// Whether one of the credentials has this user name.
pub open spec fn has_username(creds: Seq<CredentialsView>, username: Seq<char>) -> bool {
    exists|i: int| 0 <= i < creds.len() && (#[trigger] creds[i]).username == username
}

/// The credentials with those of `incoming[i..]` added whose user name is not
/// there yet.
pub open spec fn merged_credentials(
    existing: Seq<CredentialsView>,
    incoming: Seq<CredentialsView>,
    i: int,
) -> Seq<CredentialsView>
    decreases incoming.len() - i,
{
    if i < 0 || i >= incoming.len() {
        existing
    } else if has_username(existing, incoming[i].username) {
        merged_credentials(existing, incoming, i + 1)
    } else {
        merged_credentials(existing.push(incoming[i]), incoming, i + 1)
    }
}

/// Index of the first target from `i` on with this name.
pub open spec fn target_index(targets: Seq<TargetUserView>, name: Seq<char>, i: int) -> Option<int>
    decreases targets.len() - i,
{
    if i < 0 || i >= targets.len() {
        None
    } else if targets[i].target == name {
        Some(i)
    } else {
        target_index(targets, name, i + 1)
    }
}

/// The targets with the users of one stored target merged in: into the first
/// target of the same name, or as a new target at the end.
pub open spec fn merged_target(targets: Seq<TargetUserView>, stored: TargetUserView) -> Seq<
    TargetUserView,
> {
    match target_index(targets, stored.target, 0) {
        Some(i) => targets.update(
            i,
            TargetUserView {
                target: targets[i].target,
                credentials: merged_credentials(targets[i].credentials, stored.credentials, 0),
            },
        ),
        None => targets.push(stored),
    }
}

/// The targets with the users of the stored targets from `i` on merged in.
pub open spec fn merged_targets(targets: Seq<TargetUserView>, stored: Seq<TargetUserView>, i: int) -> Seq<
    TargetUserView,
>
    decreases stored.len() - i,
{
    if i < 0 || i >= stored.len() {
        targets
    } else {
        merged_targets(merged_target(targets, stored[i]), stored, i + 1)
    }
}

fn username_taken(creds: &Vec<ProxyUserCredentials>, username: &str) -> (r: bool)
    ensures
        r == has_username(credentials_view(creds@), username@),
{
    let ghost all = credentials_view(creds@);
    let mut i: usize = 0;
    while i < creds.len()
        invariant
            i <= creds.len(),
            all == credentials_view(creds@),
            forall|j: int| 0 <= j < i ==> (#[trigger] all[j]).username != username@,
        decreases creds.len() - i,
    {
        assert(all[i as int] == creds@[i as int]@);
        if str_eq(creds[i].username.as_str(), username) {
            return true;
        }
        i += 1;
    }
    false
}

fn merge_credentials(existing: &mut Vec<ProxyUserCredentials>, incoming: &Vec<ProxyUserCredentials>)
    ensures
        credentials_view(final(existing)@) == merged_credentials(
            credentials_view(old(existing)@),
            credentials_view(incoming@),
            0,
        ),
{
    let ghost inc = credentials_view(incoming@);
    let ghost target = merged_credentials(credentials_view(existing@), inc, 0);
    let mut i: usize = 0;
    while i < incoming.len()
        invariant
            i <= incoming.len(),
            inc == credentials_view(incoming@),
            merged_credentials(credentials_view(existing@), inc, i as int) == target,
        decreases incoming.len() - i,
    {
        assert(inc[i as int] == incoming@[i as int]@);
        let ghost before = credentials_view(existing@);
        if !username_taken(existing, incoming[i].username.as_str()) {
            let copy = incoming[i].clone();
            existing.push(copy);
            assert(credentials_view(existing@) =~= before.push(inc[i as int]));
        }
        i += 1;
    }
}

fn clone_target(stored: &TargetUser) -> (r: TargetUser)
    ensures
        r@ == stored@,
{
    let mut credentials: Vec<ProxyUserCredentials> = Vec::new();
    let mut i: usize = 0;
    while i < stored.credentials.len()
        invariant
            i <= stored.credentials.len(),
            credentials.len() == i,
            forall|j: int| 0 <= j < i ==> (#[trigger] credentials@[j])@ == stored.credentials@[j]@,
        decreases stored.credentials.len() - i,
    {
        credentials.push(stored.credentials[i].clone());
        i += 1;
    }
    assert(credentials_view(credentials@) =~= credentials_view(stored.credentials@));
    TargetUser { target: stored.target.clone(), credentials }
}

impl ProxyUserCredentials {
    /// Whether the connections of the user are counted.
    pub fn limits_connections(&self, user_access_control: bool) -> (r: bool)
        ensures
            r == (self.max_connections > 0 && user_access_control),
    {
        self.max_connections > 0 && user_access_control
    }

    /// Whether the user may open one more connection, given what the count
    /// of the open ones says: that, where connections are counted, else
    /// `Allowed`.
    pub fn connection_permission(
        &self,
        user_access_control: bool,
        counted: UserConnectionPermission,
    ) -> (r: UserConnectionPermission)
        ensures
            r == if self.max_connections > 0 && user_access_control {
                counted
            } else {
                UserConnectionPermission::Allowed
            },
    {
        if self.limits_connections(user_access_control) {
            counted
        } else {
            UserConnectionPermission::Allowed
        }
    }
}

impl ApiProxyConfig {
    fn find_target(&self, name: &str) -> (r: Option<usize>)
        ensures
            match target_index(self@.user, name@, 0) {
                Some(i) => r == Some(i as usize) && 0 <= i < self.user.len(),
                None => r is None,
            },
    {
        let ghost targets = self@.user;
        let mut i: usize = 0;
        while i < self.user.len()
            invariant
                i <= self.user.len(),
                targets == targets_view(self.user@),
                target_index(targets, name@, 0) == target_index(targets, name@, i as int),
            decreases self.user.len() - i,
        {
            assert(targets[i as int] == self.user@[i as int]@);
            if str_eq(self.user[i].target.as_str(), name) {
                return Some(i);
            }
            i += 1;
        }
        None
    }

    /// Merges stored users into the configuration: the users of a stored
    /// target join the target of the same name unless their user name is
    /// there already; a target that is not there is added.
    pub fn merge_users(&mut self, stored_users: &Vec<TargetUser>)
        ensures
            final(self)@.user == merged_targets(old(self)@.user, targets_view(stored_users@), 0),
            final(self).server == old(self).server,
            final(self).use_user_db == old(self).use_user_db,
    {
        let ghost stored = targets_view(stored_users@);
        let ghost target = merged_targets(self@.user, stored, 0);
        let mut i: usize = 0;
        while i < stored_users.len()
            invariant
                i <= stored_users.len(),
                stored == targets_view(stored_users@),
                self.server == old(self).server,
                self.use_user_db == old(self).use_user_db,
                merged_targets(self@.user, stored, i as int) == target,
            decreases stored_users.len() - i,
        {
            assert(stored[i as int] == stored_users@[i as int]@);
            let ghost before = self@.user;
            match self.find_target(stored_users[i].target.as_str()) {
                Some(t) => {
                    let ghost old_target = self.user@[t as int];
                    assert(before[t as int] == old_target@);
                    merge_credentials(&mut self.user[t].credentials, &stored_users[i].credentials);
                    assert(self@.user =~= merged_target(before, stored[i as int]));
                },
                None => {
                    let copy = clone_target(&stored_users[i]);
                    self.user.push(copy);
                    assert(self@.user =~= merged_target(before, stored[i as int]));
                },
            }
            i += 1;
        }
    }
}

} // verus!
