//! Accounts file of `user,password` lines, searched line by line.
use crate::server::server_error::{ServerError, ServerErrorKind, ServerResult};
use crate::text::{chars_of, contains_char, lines, lines_of, seqs_of, split_once, split_once_chars, string_from_chars, trim, trim_chars, chars_eq};
use vstd::prelude::*;

verus! {

/// Message of the error for a line that is not `user,password`.
pub const MSG_INVALID_ACCOUNTS_FORMAT: &'static str = "Formato de archivo de cuentas invalido";
/// Start of the message of the error for a user not in the file.
pub const MSG_NOT_FOUND_START: &'static str = "Cliente con usuario ";
/// End of the message of the error for a user not in the file.
pub const MSG_NOT_FOUND_END: &'static str = " no se encontro en el archivo de cuentas";

/// User name and password of an accounts line: the trimmed line must hold
/// exactly one comma.
pub open spec fn account_line(line: Seq<char>) -> Option<(Seq<char>, Seq<char>)> {
    match split_once(trim(line), ',') {
        Some((user, password)) => if password.contains(',') {
            None
        } else {
            Some((user, password))
        },
        None => None,
    }
}

/// Outcome of searching `user` in the accounts lines `ls`: the password
/// of the first line with that user, `Err(true)` when a line before it is
/// not an accounts line, `Err(false)` when no line has that user.
pub open spec fn search_lines(ls: Seq<Seq<char>>, user: Seq<char>) -> Result<Seq<char>, bool>
    decreases ls.len(),
{
    if ls.len() == 0 {
        Err(false)
    } else {
        match account_line(ls[0]) {
            None => Err(true),
            Some((u, p)) => if u == user {
                Ok(p)
            } else {
                search_lines(ls.drop_first(), user)
            },
        }
    }
}

fn parse_account_line(line: &[char]) -> (r: ServerResult<(Vec<char>, Vec<char>)>)
    ensures
        match account_line(line@) {
            Some((u, p)) => r matches Ok((x, y)) && x@ == u && y@ == p,
            None => r matches Err(e) && e.spec_kind() == ServerErrorKind::Other && e.message()
                == MSG_INVALID_ACCOUNTS_FORMAT@,
        },
{
    let trimmed = trim_chars(line);
    match split_once_chars(trimmed.as_slice(), ',') {
        Some((user, password)) => {
            if contains_char(password.as_slice(), ',') {
                Err(ServerError::new_msg(MSG_INVALID_ACCOUNTS_FORMAT))
            } else {
                Ok((user, password))
            }
        },
        None => Err(ServerError::new_msg(MSG_INVALID_ACCOUNTS_FORMAT)),
    }
}

/// Searches `user_name_to_search` in the accounts file whose text is
/// `file` and returns its password.
///
/// Fails with kind [`ServerErrorKind::ClientNotInWhitelist`] when no line
/// has that user, and with kind [`ServerErrorKind::Other`] when a line
/// before it is not `user,password`.
pub fn search_in_file(file: &str, user_name_to_search: &str) -> (r: ServerResult<String>)
    ensures
        match search_lines(lines(file@), user_name_to_search@) {
            Ok(p) => r matches Ok(s) && s@ == p,
            Err(true) => r matches Err(e) && e.spec_kind() == ServerErrorKind::Other
                && e.message() == MSG_INVALID_ACCOUNTS_FORMAT@,
            Err(false) => r matches Err(e) && e.spec_kind()
                == ServerErrorKind::ClientNotInWhitelist && e.message() == MSG_NOT_FOUND_START@
                + user_name_to_search@ + MSG_NOT_FOUND_END@,
        },
{
    let chars = chars_of(file);
    let ls = lines_of(chars.as_slice());
    let ghost all = seqs_of(ls@);
    let mut i: usize = 0;
    proof {
        assert(all.skip(0) == all);
    }
    while i < ls.len()
        invariant
            i <= ls@.len(),
            all == seqs_of(ls@),
            all == lines(file@),
            search_lines(all, user_name_to_search@) == search_lines(all.skip(i as int), user_name_to_search@),
        decreases ls@.len() - i,
    {
        proof {
            assert(all.skip(i as int)[0] == ls@[i as int]@);
            assert(all.skip(i as int).drop_first() == all.skip(i + 1));
        }
        let (user_name, password) = match parse_account_line(ls[i].as_slice()) {
            Ok(p) => p,
            Err(e) => return Err(e),
        };
        if chars_eq(user_name.as_slice(), user_name_to_search) {
            return Ok(string_from_chars(password.as_slice()));
        }
        i = i + 1;
    }
    let mut detail = String::from_str(user_name_to_search);
    detail.append(MSG_NOT_FOUND_END);
    let e = ServerError::new_kind_with(MSG_NOT_FOUND_START, detail.as_str(), ServerErrorKind::ClientNotInWhitelist);
    proof {
        assert(all.skip(i as int) == Seq::<Seq<char>>::empty());
        assert(MSG_NOT_FOUND_START@ + (user_name_to_search@ + MSG_NOT_FOUND_END@) == MSG_NOT_FOUND_START@
            + user_name_to_search@ + MSG_NOT_FOUND_END@);
    }
    Err(e)
}

} // verus!
