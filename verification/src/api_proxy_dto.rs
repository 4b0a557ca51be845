//! The configuration of servers and users in the form it is exchanged in, with
//! the same checks as the form it is kept in.
use vstd::prelude::*;
use crate::api_proxy::{
    config_complaints, contains_text, credentials_view, opt_text, pass_of, prepare_server_fields,
    prepare_users, prepared_config, prepared_server, prepared_servers, prepared_target,
    server_names, server_pass_of, servers_pass, targets_pass, ConfigView, ProxyUserCredentials,
    ServerView, TargetUserView,
};
use crate::error::{info_err, is_info_error, TuliproxError};
use crate::eval::join;
use crate::semantics::join_texts;
use crate::text::concat2;
use crate::value::texts_view;

verus! {

/// The users of one target.
#[derive(Debug)]
pub struct TargetUserDto {
    pub target: String,
    pub credentials: Vec<ProxyUserCredentials>,
}

impl View for TargetUserDto {
    type V = TargetUserView;

    open spec fn view(&self) -> TargetUserView {
        TargetUserView { target: self.target@, credentials: credentials_view(self.credentials@) }
    }
}

/// The description of a server that users are sent to.
#[derive(Debug, Clone)]
pub struct ApiProxyServerInfoDto {
    pub name: String,
    pub protocol: String,
    pub host: String,
    pub port: Option<String>,
    pub timezone: String,
    pub message: String,
    pub path: Option<String>,
}

impl View for ApiProxyServerInfoDto {
    type V = ServerView;

    open spec fn view(&self) -> ServerView {
        ServerView {
            name: self.name@,
            protocol: self.protocol@,
            host: self.host@,
            port: opt_text(self.port),
            timezone: self.timezone@,
            message: self.message@,
            path: opt_text(self.path),
        }
    }
}

/// The servers and the users of the proxy.
#[derive(Debug)]
pub struct ApiProxyConfigDto {
    pub server: Vec<ApiProxyServerInfoDto>,
    pub user: Vec<TargetUserDto>,
    pub use_user_db: bool,
}

pub open spec fn dto_servers_view(s: Seq<ApiProxyServerInfoDto>) -> Seq<ServerView> {
    s.map_values(|x: ApiProxyServerInfoDto| x@)
}

pub open spec fn dto_targets_view(s: Seq<TargetUserDto>) -> Seq<TargetUserView> {
    s.map_values(|x: TargetUserDto| x@)
}

impl View for ApiProxyConfigDto {
    type V = ConfigView;

    open spec fn view(&self) -> ConfigView {
        ConfigView {
            server: dto_servers_view(self.server@),
            user: dto_targets_view(self.user@),
            use_user_db: self.use_user_db,
        }
    }
}

fn push_text(list: &mut Vec<String>, text: String)
    ensures
        texts_view(final(list)@) == texts_view(old(list)@).push(text@),
{
    list.push(text);
    assert(texts_view(list@) =~= texts_view(old(list)@).push(text@));
}

impl ApiProxyServerInfoDto {
    /// Trims the fields, fills in the defaults, and rejects an empty name,
    /// protocol or host and a port that is no number.
    pub fn prepare(&mut self) -> (r: Result<(), TuliproxError>)
        ensures
            final(self)@ == prepared_server(old(self)@).0,
            match prepared_server(old(self)@).1 {
                Some(msg) => is_info_error(r, msg),
                None => r is Ok,
            },
    {
        prepare_server_fields(
            &mut self.name,
            &mut self.protocol,
            &mut self.host,
            &mut self.port,
            &mut self.timezone,
            &mut self.message,
            &mut self.path,
        )
    }

    /// Prepares the description and says whether that went well.
    pub fn validate(&mut self) -> (r: bool)
        ensures
            final(self)@ == prepared_server(old(self)@).0,
            r == prepared_server(old(self)@).1 is None,
    {
        self.prepare().is_ok()
    }
}

impl ApiProxyConfigDto {
    /// Prepares every server and gathers the complaints about them.
    pub fn prepare_server_config(&mut self, errors: &mut Vec<String>) -> (names: Vec<String>)
        ensures
            final(self)@.server == prepared_servers(old(self)@.server),
            final(self).user == old(self).user,
            final(self).use_user_db == old(self).use_user_db,
            server_pass_of(names@, final(errors)@) == servers_pass(
                old(self)@.server,
                0,
                server_pass_of(Seq::empty(), old(errors)@),
            ),
    {
        let ghost before = dto_servers_view(self.server@);
        let ghost first = server_pass_of(Seq::empty(), errors@);
        let mut name_set: Vec<String> = Vec::new();
        let mut i: usize = 0;
        assert(texts_view(name_set@) =~= Seq::<Seq<char>>::empty());
        assert(texts_view(Seq::<String>::empty()) =~= Seq::<Seq<char>>::empty());
        while i < self.server.len()
            invariant
                i <= self.server.len(),
                self.server.len() == before.len(),
                self.user == old(self).user,
                self.use_user_db == old(self).use_user_db,
                forall|j: int| 0 <= j < i ==> (#[trigger] self.server@[j])@ == prepared_server(before[j]).0,
                forall|j: int| i <= j < self.server.len() ==> (#[trigger] self.server@[j])@ == before[j],
                servers_pass(before, i as int, server_pass_of(name_set@, errors@)) == servers_pass(
                    before,
                    0,
                    first,
                ),
            decreases self.server.len() - i,
        {
            match self.server[i].prepare() {
                Err(err) => {
                    push_text(errors, err.to_string());
                },
                Ok(_) => {},
            }
            if contains_text(&name_set, self.server[i].name.as_str()) {
                push_text(
                    errors,
                    concat2("Non-unique server info name found ", self.server[i].name.as_str()),
                );
            } else {
                push_text(&mut name_set, self.server[i].name.clone());
            }
            i += 1;
        }
        assert(dto_servers_view(self.server@) =~= prepared_servers(before));
        name_set
    }

    fn collect_server_names(&self) -> (names: Vec<String>)
        ensures
            texts_view(names@) == server_names(self@.server),
    {
        let mut names: Vec<String> = Vec::new();
        let mut i: usize = 0;
        while i < self.server.len()
            invariant
                i <= self.server.len(),
                names.len() == i,
                forall|j: int| 0 <= j < i ==> (#[trigger] names@[j])@ == self.server@[j].name@,
            decreases self.server.len() - i,
        {
            names.push(self.server[i].name.clone());
            i += 1;
        }
        assert(texts_view(names@) =~= server_names(self@.server));
        names
    }

    /// Prepares every user and gathers the complaints about them.
    pub fn prepare_target_user(&mut self, errors: &mut Vec<String>)
        ensures
            final(self)@.user == old(self)@.user.map_values(|t: TargetUserView| prepared_target(t)),
            final(self).server == old(self).server,
            final(self).use_user_db == old(self).use_user_db,
            texts_view(final(errors)@) == targets_pass(
                old(self)@.user,
                0,
                server_names(old(self)@.server),
                pass_of(Seq::empty(), Seq::empty(), old(errors)@),
            ).errors,
    {
        let ghost before = dto_targets_view(self.user@);
        let server_names = self.collect_server_names();
        let ghost servers = texts_view(server_names@);
        let mut usernames: Vec<String> = Vec::new();
        let mut tokens: Vec<String> = Vec::new();
        let ghost first = pass_of(usernames@, tokens@, errors@);
        assert(texts_view(usernames@) =~= Seq::<Seq<char>>::empty());
        assert(texts_view(tokens@) =~= Seq::<Seq<char>>::empty());
        let mut t: usize = 0;
        while t < self.user.len()
            invariant
                t <= self.user.len(),
                self.user.len() == before.len(),
                self.server == old(self).server,
                self.use_user_db == old(self).use_user_db,
                servers == texts_view(server_names@),
                forall|j: int| 0 <= j < t ==> (#[trigger] self.user@[j])@ == prepared_target(before[j]),
                forall|j: int| t <= j < self.user.len() ==> (#[trigger] self.user@[j])@ == before[j],
                targets_pass(before, t as int, servers, pass_of(usernames@, tokens@, errors@))
                    == targets_pass(before, 0, servers, first),
            decreases self.user.len() - t,
        {
            prepare_users(
                &mut self.user[t].credentials,
                &server_names,
                &mut usernames,
                &mut tokens,
                errors,
            );
            t += 1;
        }
        assert(dto_targets_view(self.user@) =~= before.map_values(
            |t: TargetUserView| prepared_target(t),
        ));
    }

    /// Prepares servers and users; the complaints, one per line, are the error.
    pub fn prepare(&mut self) -> (r: Result<(), TuliproxError>)
        ensures
            final(self)@ == prepared_config(old(self)@),
            config_complaints(old(self)@).len() == 0 ==> r is Ok,
            config_complaints(old(self)@).len() > 0 ==> is_info_error(
                r,
                join_texts(config_complaints(old(self)@), "\n"@),
            ),
    {
        let mut errors: Vec<String> = Vec::new();
        assert(texts_view(errors@) =~= Seq::<Seq<char>>::empty());
        if self.server.len() == 0 {
            push_text(&mut errors, "No server info defined".to_owned());
            assert(dto_servers_view(self.server@) =~= prepared_servers(old(self)@.server));
        } else {
            let _names = self.prepare_server_config(&mut errors);
        }
        self.prepare_target_user(&mut errors);
        if errors.len() == 0 {
            Ok(())
        } else {
            Err(info_err(join(&errors, "\n")))
        }
    }
}

} // verus!
