//! The users of the web interface.
use vstd::prelude::*;
use crate::text::{
    ascii_lower, chars_of, eq_ignore_ascii_case, find_char, index_from, text_of, trim, trimmed,
};

verus! {

/// A user of the web interface.
#[derive(Debug, Clone)]
pub struct UserCredential {
    pub username: String,
    pub password: String,
}

/// What a user of the web interface stands for.
pub ghost struct UserView {
    pub username: Seq<char>,
    pub password: Seq<char>,
}

impl View for UserCredential {
    type V = UserView;

    open spec fn view(&self) -> UserView {
        UserView { username: self.username@, password: self.password@ }
    }
}

pub open spec fn users_view(s: Seq<UserCredential>) -> Seq<UserView> {
    s.map_values(|u: UserCredential| u@)
}

/// How the web interface authenticates its users.
#[derive(Debug, Clone)]
pub struct WebAuthConfig {
    pub enabled: bool,
    pub issuer: String,
    pub secret: String,
    pub userfile: Option<String>,
    pub t_users: Option<Vec<UserCredential>>,
}

/// The user a line of the user file describes: the name before the first `:`
/// and the password up to the next `:`, both trimmed. A line without `:`
/// describes none.
pub open spec fn user_of_line(line: Seq<char>) -> Option<UserView> {
    let first = index_from(line, ':', 0);
    if first >= line.len() {
        None
    } else {
        let second = index_from(line, ':', first + 1);
        Some(
            UserView {
                username: trimmed(line.subrange(0, first)),
                password: trimmed(line.subrange(first + 1, second)),
            },
        )
    }
}

/// The users the lines of a user file describe, in order.
pub open spec fn users_of_lines(lines: Seq<Seq<char>>) -> Seq<UserView>
    decreases lines.len(),
{
    if lines.len() == 0 {
        Seq::empty()
    } else {
        match user_of_line(lines.last()) {
            Some(u) => users_of_lines(lines.drop_last()).push(u),
            None => users_of_lines(lines.drop_last()),
        }
    }
}

/// The password of the first user from `i` on whose name is `username` but
/// for ASCII case.
pub open spec fn password_from(users: Seq<UserView>, username: Seq<char>, i: int) -> Option<Seq<char>>
    decreases users.len() - i,
{
    if i < 0 || i >= users.len() {
        None
    } else if ascii_lower(users[i].username) == ascii_lower(username) {
        Some(users[i].password)
    } else {
        password_from(users, username, i + 1)
    }
}

/// The user a line of the user file describes.
pub fn parse_user_line(line: &str) -> (r: Option<UserCredential>)
    ensures
        match user_of_line(line@) {
            Some(u) => r is Some && r.unwrap()@ == u,
            None => r is None,
        },
{
    let chars = chars_of(line);
    let first = find_char(&chars, ':', 0);
    if first >= chars.len() {
        return None;
    }
    let second = find_char(&chars, ':', first + 1);
    let username = text_of(&chars, 0, first);
    let password = text_of(&chars, first + 1, second);
    Some(
        UserCredential {
            username: trim(username.as_str()),
            password: trim(password.as_str()),
        },
    )
}

pub open spec fn lines_view(s: Seq<String>) -> Seq<Seq<char>> {
    s.map_values(|t: String| t@)
}

impl WebAuthConfig {
    /// The users of the configuration; none where no user file was read.
    pub open spec fn users(&self) -> Seq<UserView> {
        match self.t_users {
            Some(list) => users_view(list@),
            None => Seq::empty(),
        }
    }

    /// Takes the users from the lines of a user file.
    pub fn set_users_from_lines(&mut self, lines: &Vec<String>)
        ensures
            final(self).users() == users_of_lines(lines_view(lines@)),
            final(self).t_users is Some,
            final(self).enabled == old(self).enabled,
            final(self).issuer == old(self).issuer,
            final(self).secret == old(self).secret,
            final(self).userfile == old(self).userfile,
    {
        let ghost all = lines_view(lines@);
        let mut users: Vec<UserCredential> = Vec::new();
        let mut i: usize = 0;
        assert(all.take(0).len() == 0);
        assert(users_view(users@) =~= users_of_lines(all.take(0)));
        while i < lines.len()
            invariant
                i <= lines.len(),
                all == lines_view(lines@),
                users_view(users@) == users_of_lines(all.take(i as int)),
            decreases lines.len() - i,
        {
            let ghost next = all.take(i as int + 1);
            let ghost before = users_view(users@);
            assert(next.drop_last() == all.take(i as int));
            assert(next.last() == lines@[i as int]@);
            match parse_user_line(lines[i].as_str()) {
                Some(user) => {
                    users.push(user);
                    assert(users_view(users@) =~= before.push(user@));
                },
                None => {},
            }
            i += 1;
        }
        assert(all.take(lines.len() as int) == all);
        self.t_users = Some(users);
    }

    /// The password of the first user of this name, without regard to ASCII
    /// case.
    pub fn get_user_password(&self, username: &str) -> (r: Option<&str>)
        ensures
            match password_from(self.users(), username@, 0) {
                Some(p) => r is Some && r.unwrap()@ == p,
                None => r is None,
            },
    {
        match &self.t_users {
            Some(users) => {
                let ghost all = users_view(users@);
                let mut i: usize = 0;
                while i < users.len()
                    invariant
                        i <= users.len(),
                        all == users_view(users@),
                        self.users() == all,
                        password_from(all, username@, 0) == password_from(all, username@, i as int),
                    decreases users.len() - i,
                {
                    assert(all[i as int] == users@[i as int]@);
                    if eq_ignore_ascii_case(users[i].username.as_str(), username) {
                        return Some(users[i].password.as_str());
                    }
                    i += 1;
                }
                None
            },
            None => None,
        }
    }
}

} // verus!
