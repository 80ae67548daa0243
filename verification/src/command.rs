//! The interactive commands of the user-management front end, and the
//! parsing of a command line's first word.

use vstd::prelude::*;

use vstd::slice::{slice_subrange, slice_to_vec};

use crate::peer::eq_bytes;

verus! {

/// A user-management command.
#[derive(Clone, Copy, PartialEq, Eq, Structural, Debug)]
pub enum Command {
    /// List all users.
    ListUsers,
    /// Create a user.
    CreateUser,
    /// Update a user.
    UpdateUser,
    /// Delete a user.
    DeleteUser,
    /// Switch the active user.
    SwitchUser,
    /// Display the current user.
    CurrentUser,
    /// Display the help text.
    Help,
}

/// A user-management command with its arguments.
pub enum UserCommand {
    /// List all users.
    List,
    /// Create a new user.
    Create { first_name: String, last_name: Option<String> },
    /// Update a user's details.
    Update { id: i32, first_name: Option<String>, last_name: Option<String> },
    /// Delete a user.
    Delete { id: i32 },
}

pub open spec fn is_space_byte(b: u8) -> bool {
    b == 0x20 || b == 0x09 || b == 0x0A || b == 0x0D
}

/// Count of leading whitespace bytes.
pub open spec fn leading_spaces(s: Seq<u8>) -> int
    decreases s.len(),
{
    if s.len() == 0 || !is_space_byte(s[0]) {
        0
    } else {
        1 + leading_spaces(s.drop_first())
    }
}

/// Length of the run of non-whitespace bytes at the front.
pub open spec fn token_len(s: Seq<u8>) -> int
    decreases s.len(),
{
    if s.len() == 0 || is_space_byte(s[0]) {
        0
    } else {
        1 + token_len(s.drop_first())
    }
}

/// The first whitespace-delimited word of a line.
pub open spec fn first_token(s: Seq<u8>) -> Seq<u8> {
    let rest = s.skip(leading_spaces(s));
    rest.take(token_len(rest))
}

pub open spec fn cmd_list_users() -> Seq<u8> {
    seq![0x6Cu8, 0x69, 0x73, 0x74, 0x5F, 0x75, 0x73, 0x65, 0x72, 0x73]
}

pub open spec fn cmd_create_user() -> Seq<u8> {
    seq![0x63u8, 0x72, 0x65, 0x61, 0x74, 0x65, 0x5F, 0x75, 0x73, 0x65, 0x72]
}

pub open spec fn cmd_update_user() -> Seq<u8> {
    seq![0x75u8, 0x70, 0x64, 0x61, 0x74, 0x65, 0x5F, 0x75, 0x73, 0x65, 0x72]
}

pub open spec fn cmd_delete_user() -> Seq<u8> {
    seq![0x64u8, 0x65, 0x6C, 0x65, 0x74, 0x65, 0x5F, 0x75, 0x73, 0x65, 0x72]
}

pub open spec fn cmd_switch_user() -> Seq<u8> {
    seq![0x73u8, 0x77, 0x69, 0x74, 0x63, 0x68, 0x5F, 0x75, 0x73, 0x65, 0x72]
}

pub open spec fn cmd_current_user() -> Seq<u8> {
    seq![0x63u8, 0x75, 0x72, 0x72, 0x65, 0x6E, 0x74, 0x5F, 0x75, 0x73, 0x65, 0x72]
}

/// The command a line's first word names; anything unrecognized asks for
/// help.
pub open spec fn command_of(s: Seq<u8>) -> Command {
    let t = first_token(s);
    if t == cmd_list_users() {
        Command::ListUsers
    } else if t == cmd_create_user() {
        Command::CreateUser
    } else if t == cmd_update_user() {
        Command::UpdateUser
    } else if t == cmd_delete_user() {
        Command::DeleteUser
    } else if t == cmd_switch_user() {
        Command::SwitchUser
    } else if t == cmd_current_user() {
        Command::CurrentUser
    } else {
        Command::Help
    }
}

/// A run of `m` spaces followed by a non-space (or the end) pins the count.
proof fn lemma_leading_spaces_at(s: Seq<u8>, m: int)
    requires
        0 <= m <= s.len(),
        forall|k: int| 0 <= k < m ==> is_space_byte(#[trigger] s[k]),
        m == s.len() || !is_space_byte(s[m]),
    ensures
        leading_spaces(s) == m,
    decreases m,
{
    if m > 0 {
        assert(is_space_byte(s[0]));
        assert forall|k: int| 0 <= k < m - 1 implies is_space_byte(
            #[trigger] s.drop_first()[k],
        ) by {
            assert(is_space_byte(s[k + 1]));
        }
        lemma_leading_spaces_at(s.drop_first(), m - 1);
    }
}

/// A run of `m` non-spaces followed by a space (or the end) pins the length.
proof fn lemma_token_len_at(s: Seq<u8>, m: int)
    requires
        0 <= m <= s.len(),
        forall|k: int| 0 <= k < m ==> !is_space_byte(#[trigger] s[k]),
        m == s.len() || is_space_byte(s[m]),
    ensures
        token_len(s) == m,
    decreases m,
{
    if m > 0 {
        assert(!is_space_byte(s[0]));
        assert forall|k: int| 0 <= k < m - 1 implies !is_space_byte(
            #[trigger] s.drop_first()[k],
        ) by {
            assert(!is_space_byte(s[k + 1]));
        }
        lemma_token_len_at(s.drop_first(), m - 1);
    }
}

fn is_space_exec(b: u8) -> (r: bool)
    ensures
        r == is_space_byte(b),
{
    b == 0x20 || b == 0x09 || b == 0x0A || b == 0x0D
}

fn cmd_key(which: Command) -> (r: Vec<u8>)
    requires
        !(which is Help),
    ensures
        which is ListUsers ==> r@ == cmd_list_users(),
        which is CreateUser ==> r@ == cmd_create_user(),
        which is UpdateUser ==> r@ == cmd_update_user(),
        which is DeleteUser ==> r@ == cmd_delete_user(),
        which is SwitchUser ==> r@ == cmd_switch_user(),
        which is CurrentUser ==> r@ == cmd_current_user(),
{
    let mut v: Vec<u8> = Vec::new();
    match which {
        Command::ListUsers => {
            crate::codec::push_byte(&mut v, 0x6C);
            crate::codec::push_byte(&mut v, 0x69);
            crate::codec::push_byte(&mut v, 0x73);
            crate::codec::push_byte(&mut v, 0x74);
            crate::codec::push_byte(&mut v, 0x5F);
            crate::codec::push_byte(&mut v, 0x75);
            crate::codec::push_byte(&mut v, 0x73);
            crate::codec::push_byte(&mut v, 0x65);
            crate::codec::push_byte(&mut v, 0x72);
            crate::codec::push_byte(&mut v, 0x73);
            proof {
                assert(v@ =~= cmd_list_users());
            }
        },
        Command::CreateUser => {
            crate::codec::push_byte(&mut v, 0x63);
            crate::codec::push_byte(&mut v, 0x72);
            crate::codec::push_byte(&mut v, 0x65);
            crate::codec::push_byte(&mut v, 0x61);
            crate::codec::push_byte(&mut v, 0x74);
            crate::codec::push_byte(&mut v, 0x65);
            crate::codec::push_byte(&mut v, 0x5F);
            crate::codec::push_byte(&mut v, 0x75);
            crate::codec::push_byte(&mut v, 0x73);
            crate::codec::push_byte(&mut v, 0x65);
            crate::codec::push_byte(&mut v, 0x72);
            proof {
                assert(v@ =~= cmd_create_user());
            }
        },
        Command::UpdateUser => {
            crate::codec::push_byte(&mut v, 0x75);
            crate::codec::push_byte(&mut v, 0x70);
            crate::codec::push_byte(&mut v, 0x64);
            crate::codec::push_byte(&mut v, 0x61);
            crate::codec::push_byte(&mut v, 0x74);
            crate::codec::push_byte(&mut v, 0x65);
            crate::codec::push_byte(&mut v, 0x5F);
            crate::codec::push_byte(&mut v, 0x75);
            crate::codec::push_byte(&mut v, 0x73);
            crate::codec::push_byte(&mut v, 0x65);
            crate::codec::push_byte(&mut v, 0x72);
            proof {
                assert(v@ =~= cmd_update_user());
            }
        },
        Command::DeleteUser => {
            crate::codec::push_byte(&mut v, 0x64);
            crate::codec::push_byte(&mut v, 0x65);
            crate::codec::push_byte(&mut v, 0x6C);
            crate::codec::push_byte(&mut v, 0x65);
            crate::codec::push_byte(&mut v, 0x74);
            crate::codec::push_byte(&mut v, 0x65);
            crate::codec::push_byte(&mut v, 0x5F);
            crate::codec::push_byte(&mut v, 0x75);
            crate::codec::push_byte(&mut v, 0x73);
            crate::codec::push_byte(&mut v, 0x65);
            crate::codec::push_byte(&mut v, 0x72);
            proof {
                assert(v@ =~= cmd_delete_user());
            }
        },
        Command::SwitchUser => {
            crate::codec::push_byte(&mut v, 0x73);
            crate::codec::push_byte(&mut v, 0x77);
            crate::codec::push_byte(&mut v, 0x69);
            crate::codec::push_byte(&mut v, 0x74);
            crate::codec::push_byte(&mut v, 0x63);
            crate::codec::push_byte(&mut v, 0x68);
            crate::codec::push_byte(&mut v, 0x5F);
            crate::codec::push_byte(&mut v, 0x75);
            crate::codec::push_byte(&mut v, 0x73);
            crate::codec::push_byte(&mut v, 0x65);
            crate::codec::push_byte(&mut v, 0x72);
            proof {
                assert(v@ =~= cmd_switch_user());
            }
        },
        _ => {
            crate::codec::push_byte(&mut v, 0x63);
            crate::codec::push_byte(&mut v, 0x75);
            crate::codec::push_byte(&mut v, 0x72);
            crate::codec::push_byte(&mut v, 0x72);
            crate::codec::push_byte(&mut v, 0x65);
            crate::codec::push_byte(&mut v, 0x6E);
            crate::codec::push_byte(&mut v, 0x74);
            crate::codec::push_byte(&mut v, 0x5F);
            crate::codec::push_byte(&mut v, 0x75);
            crate::codec::push_byte(&mut v, 0x73);
            crate::codec::push_byte(&mut v, 0x65);
            crate::codec::push_byte(&mut v, 0x72);
            proof {
                assert(v@ =~= cmd_current_user());
            }
        },
    }
    v
}

impl Command {
    /// Parse the first word of a command line.
    pub fn parse(line: &Vec<u8>) -> (r: Command)
        ensures
            r == command_of(line@),
    {
        let mut a: usize = 0;
        while a < line.len() && is_space_exec(line[a])
            invariant
                a <= line.len(),
                forall|k: int| 0 <= k < a ==> is_space_byte(#[trigger] line@[k]),
            decreases line.len() - a,
        {
            a = a + 1;
        }
        proof {
            lemma_leading_spaces_at(line@, a as int);
        }
        let mut j: usize = a;
        while j < line.len() && !is_space_exec(line[j])
            invariant
                a <= j <= line.len(),
                forall|k: int| a <= k < j ==> !is_space_byte(#[trigger] line@[k]),
            decreases line.len() - j,
        {
            j = j + 1;
        }
        proof {
            let rest = line@.skip(a as int);
            assert forall|k: int| 0 <= k < j - a implies !is_space_byte(#[trigger] rest[k]) by {
                assert(rest[k] == line@[a + k]);
            }
            if j < line.len() {
                assert(rest[j - a] == line@[j as int]);
            }
            lemma_token_len_at(rest, j - a);
        }
        let tok = slice_to_vec(slice_subrange(line.as_slice(), a, j));
        proof {
            assert(tok@ =~= first_token(line@));
        }
        if eq_bytes(&tok, &cmd_key(Command::ListUsers)) {
            Command::ListUsers
        } else if eq_bytes(&tok, &cmd_key(Command::CreateUser)) {
            Command::CreateUser
        } else if eq_bytes(&tok, &cmd_key(Command::UpdateUser)) {
            Command::UpdateUser
        } else if eq_bytes(&tok, &cmd_key(Command::DeleteUser)) {
            Command::DeleteUser
        } else if eq_bytes(&tok, &cmd_key(Command::SwitchUser)) {
            Command::SwitchUser
        } else if eq_bytes(&tok, &cmd_key(Command::CurrentUser)) {
            Command::CurrentUser
        } else {
            Command::Help
        }
    }

    /// The help text.
    pub fn help() -> (r: String)
        ensures
            r@ == (
            "\ncommands:\n    list_users          list all users\n    create_user         create new user\n    update_user         update a user\n    delete_user         delete a user\n    switch_user         switch a user\n    current_user        display current user\n    help                display help\n")@,
    {
        let s: &str =
            "\ncommands:\n    list_users          list all users\n    create_user         create new user\n    update_user         update a user\n    delete_user         delete a user\n    switch_user         switch a user\n    current_user        display current user\n    help                display help\n";
        s.to_owned()
    }
}

} // verus!
