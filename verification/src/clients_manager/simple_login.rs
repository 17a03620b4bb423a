//! Login against a plain text file of `user,password` lines, whose first
//! lines are kept in memory.
use crate::io_error::{IoError, IoErrorKind};
use crate::traits::LoginResult;
use crate::text::{chars_of, lines, lines_of, seqs_of, split_once, split_once_chars, string_from_chars, trim, trim_chars};
use vstd::prelude::*;

verus! {

/// Number of accounts kept in memory.
pub const CACHE_SIZE: usize = 128;
/// Separator of a user name and its password.
pub const SEP: char = ',';
/// Message of the error for a line without a comma.
pub const MSG_INVALID_FORMAT: &'static str = "Formato de archivo invalido";
/// Message of the error for a user name written twice.
pub const MSG_DUPLICATED_USER: &'static str = "Usuario duplicado";

/// User name and password of a line of the accounts file: the trimmed
/// line split at its first comma.
pub open spec fn account_entry(line: Seq<char>) -> Option<(Seq<char>, Seq<char>)> {
    split_once(trim(line), SEP)
}

/// Whether `user` is the user name of an entry of `es`.
pub open spec fn has_user(es: Seq<(Seq<char>, Seq<char>)>, user: Seq<char>) -> bool {
    exists|i: int| 0 <= i < es.len() && (#[trigger] es[i]).0 == user
}

/// Accounts of the first `k` lines of `ls`, or the message of the first
/// error: a line without a comma, or a user name already read.
pub open spec fn load_accounts(ls: Seq<Seq<char>>, k: nat) -> Result<Seq<(Seq<char>, Seq<char>)>, Seq<char>>
    decreases k,
{
    if k == 0 {
        Ok(seq![])
    } else {
        match load_accounts(ls, (k - 1) as nat) {
            Err(m) => Err(m),
            Ok(es) => match account_entry(ls[k - 1]) {
                None => Err(MSG_INVALID_FORMAT@),
                Some((u, p)) => if has_user(es, u) {
                    Err(MSG_DUPLICATED_USER@)
                } else {
                    Ok(es.push((u, p)))
                },
            },
        }
    }
}

/// Number of lines read into memory from a file of `n` lines.
pub open spec fn cached_lines(n: nat) -> nat {
    if n < CACHE_SIZE {
        n
    } else {
        CACHE_SIZE as nat
    }
}

/// Password of `user` among the entries `es`.
pub open spec fn password_of(es: Seq<(Seq<char>, Seq<char>)>, user: Seq<char>) -> Option<Seq<char>>
    decreases es.len(),
{
    if es.len() == 0 {
        None
    } else if es[0].0 == user {
        Some(es[0].1)
    } else {
        password_of(es.drop_first(), user)
    }
}

/// Login against the accounts of a file of `user,password` lines.
///
/// The first [`CACHE_SIZE`] accounts are kept in memory; when the file
/// has more lines, its path is kept so that the others can be searched.
#[derive(Debug)]
pub struct SimpleLogin {
    cache: Vec<(String, String)>,
    path: Option<String>,
}

/// What a login against an accounts file needs next.
pub enum LoginStep {
    /// The answer, given by the accounts in memory.
    Answer(LoginResult),
    /// The accounts in memory cannot answer: the file at this path must be
    /// searched (see [`SimpleLogin::search_in_file`]).
    SearchFile(String),
}

/// View of the accounts in memory.
pub open spec fn cache_view(v: Seq<(String, String)>) -> Seq<(Seq<char>, Seq<char>)> {
    v.map_values(|e: (String, String)| (e.0@, e.1@))
}

impl SimpleLogin {
    /// The accounts in memory, in file order.
    pub closed spec fn spec_cache(&self) -> Seq<(Seq<char>, Seq<char>)> {
        cache_view(self.cache@)
    }

    /// The path of the file, when accounts remain in it.
    pub closed spec fn spec_path(&self) -> Option<Seq<char>> {
        match self.path {
            Some(p) => Some(p@),
            None => None,
        }
    }

    /// Reads the first [`CACHE_SIZE`] accounts of the file at `path`, whose
    /// text is `stream`; keeps `path` when the file has more lines than
    /// that, so that a file of at most [`CACHE_SIZE`] lines is held whole.
    ///
    /// Fails with kind [`IoErrorKind::InvalidData`] when one of those lines
    /// has no comma or repeats a user name.
    pub fn new_from_stream(stream: &str, path: &str) -> (r: Result<SimpleLogin, IoError>)
        ensures
            match load_accounts(lines(stream@), cached_lines(lines(stream@).len())) {
                Ok(es) => r matches Ok(l) && l.spec_cache() == es && l.spec_path() == (if lines(
                    stream@,
                ).len() > CACHE_SIZE {
                    Some(path@)
                } else {
                    None
                }),
                Err(m) => r matches Err(e) && e.spec_kind() == IoErrorKind::InvalidData
                    && e.message() == m,
            },
    {
        let chars = chars_of(stream);
        let ls = lines_of(chars.as_slice());
        let ghost all = seqs_of(ls@);
        let mut cache: Vec<(String, String)> = Vec::new();
        let mut k: usize = 0;
        proof {
            assert(cache_view(cache@) == Seq::<(Seq<char>, Seq<char>)>::empty());
        }
        while k < CACHE_SIZE && k < ls.len()
            invariant
                k <= CACHE_SIZE,
                k <= ls@.len(),
                all == seqs_of(ls@),
                all == lines(stream@),
                load_accounts(all, k as nat) == Ok::<Seq<(Seq<char>, Seq<char>)>, Seq<char>>(cache_view(cache@)),
            decreases ls@.len() - k,
        {
            let trimmed = trim_chars(ls[k].as_slice());
            proof {
                assert(all[k as int] == ls@[k as int]@);
            }
            let (user, password) = match split_once_chars(trimmed.as_slice(), SEP) {
                Some(p) => p,
                None => {
                    proof {
                        lemma_load_fails_extends(all, (k + 1) as nat, cached_lines(all.len()));
                    }
                    return Err(IoError::new(IoErrorKind::InvalidData, MSG_INVALID_FORMAT));
                },
            };
            let user_string = string_from_chars(user.as_slice());
            let mut j: usize = 0;
            while j < cache.len()
                invariant
                    j <= cache@.len(),
                    user_string@ == user@,
                    k < CACHE_SIZE,
                    k < ls@.len(),
                    all == seqs_of(ls@),
                    all == lines(stream@),
                    load_accounts(all, k as nat) == Ok::<Seq<(Seq<char>, Seq<char>)>, Seq<char>>(cache_view(cache@)),
                    account_entry(all[k as int]) == Some((user@, password@)),
                    forall|i: int| 0 <= i < j ==> cache_view(cache@)[i].0 != user@,
                decreases cache@.len() - j,
            {
                if cache[j].0 == user_string {
                    proof {
                        assert(cache_view(cache@)[j as int].0 == user@);
                        assert(has_user(cache_view(cache@), user@));
                        lemma_load_fails_extends(all, (k + 1) as nat, cached_lines(all.len()));
                    }
                    return Err(IoError::new(IoErrorKind::InvalidData, MSG_DUPLICATED_USER));
                }
                j = j + 1;
            }
            let password_string = string_from_chars(password.as_slice());
            proof {
                assert(!has_user(cache_view(cache@), user@));
                assert(cache_view(cache@.push((user_string, password_string))) == cache_view(
                    cache@,
                ).push((user@, password@)));
            }
            cache.push((user_string, password_string));
            k = k + 1;
        }
        let kept_path = if ls.len() <= CACHE_SIZE {
            None
        } else {
            Some(String::from_str(path))
        };
        proof {
            assert(k as nat == cached_lines(all.len()));
        }
        Ok(SimpleLogin { cache, path: kept_path })
    }
}

/// Outcome of checking a password against the known one.
pub open spec fn check_password(known: Seq<char>, given: Seq<char>) -> LoginResult {
    if known == given {
        LoginResult::Accepted
    } else {
        LoginResult::InvalidPassword
    }
}

/// Outcome of a login against the accounts in memory: `None` when the user
/// is not among them and the file has more accounts to search.
pub open spec fn cached_login(
    cache: Seq<(Seq<char>, Seq<char>)>,
    path: Option<Seq<char>>,
    user: Seq<char>,
    password: Seq<char>,
) -> Option<LoginResult> {
    match password_of(cache, user) {
        Some(p) => Some(check_password(p, password)),
        None => if path is None {
            Some(LoginResult::UsernameNotFound)
        } else {
            None
        },
    }
}

/// Outcome of a login against the lines of the accounts file: the first
/// line with the user decides; `Err` when a line before it has no comma.
pub open spec fn search_accounts(ls: Seq<Seq<char>>, user: Seq<char>, password: Seq<char>) -> Result<LoginResult, ()>
    decreases ls.len(),
{
    if ls.len() == 0 {
        Ok(LoginResult::UsernameNotFound)
    } else {
        match account_entry(ls[0]) {
            None => Err(()),
            Some((u, p)) => if u == user {
                Ok(check_password(p, password))
            } else {
                search_accounts(ls.drop_first(), user, password)
            },
        }
    }
}

impl SimpleLogin {
    /// Checks `user_name` and `password` against the accounts in memory
    /// (see [`cached_login`]); `None` when the file must be searched.
    pub fn login(&self, user_name: &str, password: &str) -> (r: Option<LoginResult>)
        ensures
            r == cached_login(self.spec_cache(), self.spec_path(), user_name@, password@),
    {
        let mut i: usize = 0;
        let user = String::from_str(user_name);
        let pass = String::from_str(password);
        proof {
            assert(cache_view(self.cache@).skip(0) == cache_view(self.cache@));
        }
        while i < self.cache.len()
            invariant
                i <= self.cache@.len(),
                user@ == user_name@,
                pass@ == password@,
                password_of(cache_view(self.cache@), user_name@) == password_of(
                    cache_view(self.cache@).skip(i as int),
                    user_name@,
                ),
            decreases self.cache@.len() - i,
        {
            proof {
                assert(cache_view(self.cache@).skip(i as int)[0] == (self.cache@[i as int].0@, self.cache@[i as int].1@));
                assert(cache_view(self.cache@).skip(i as int).drop_first() == cache_view(self.cache@).skip(i + 1));
            }
            if self.cache[i].0 == user {
                if self.cache[i].1 == pass {
                    return Some(LoginResult::Accepted);
                } else {
                    return Some(LoginResult::InvalidPassword);
                }
            }
            i = i + 1;
        }
        match &self.path {
            None => Some(LoginResult::UsernameNotFound),
            Some(_) => None,
        }
    }

    /// What a login with `user_name` and `password` needs: the answer of
    /// the accounts in memory (see [`cached_login`]), or, when they cannot
    /// answer, a search of the file at the path returned.
    pub fn login_step(&self, user_name: &str, password: &str) -> (step: LoginStep)
        ensures
            match cached_login(self.spec_cache(), self.spec_path(), user_name@, password@) {
                Some(r) => step == LoginStep::Answer(r),
                None => step matches LoginStep::SearchFile(p) && self.spec_path() == Some(p@),
            },
    {
        match self.login(user_name, password) {
            Some(r) => LoginStep::Answer(r),
            None => match &self.path {
                Some(p) => LoginStep::SearchFile(String::from_str(p.as_str())),
                None => {
                    proof {
                        assert(false);
                    }
                    LoginStep::Answer(LoginResult::UsernameNotFound)
                },
            },
        }
    }

    /// The path of the file, when accounts remain in it.
    pub fn path(&self) -> (p: Option<&str>)
        ensures
            match self.spec_path() {
                Some(s) => p matches Some(x) && x@ == s,
                None => p is None,
            },
    {
        match &self.path {
            Some(s) => Some(s.as_str()),
            None => None,
        }
    }

    /// Checks `user_name` and `password` against the accounts file whose
    /// text is `accounts` (see [`search_accounts`]).
    ///
    /// Fails with kind [`IoErrorKind::InvalidData`] when a line before the
    /// user's has no comma.
    pub fn search_in_file(accounts: &str, user_name: &str, password: &str) -> (r: Result<LoginResult, IoError>)
        ensures
            match search_accounts(lines(accounts@), user_name@, password@) {
                Ok(res) => r == Ok::<LoginResult, IoError>(res),
                Err(()) => r matches Err(e) && e.spec_kind() == IoErrorKind::InvalidData
                    && e.message() == MSG_INVALID_FORMAT@,
            },
    {
        let chars = chars_of(accounts);
        let ls = lines_of(chars.as_slice());
        let ghost all = seqs_of(ls@);
        let user = String::from_str(user_name);
        let pass = String::from_str(password);
        let mut i: usize = 0;
        proof {
            assert(all.skip(0) == all);
        }
        while i < ls.len()
            invariant
                i <= ls@.len(),
                all == seqs_of(ls@),
                all == lines(accounts@),
                user@ == user_name@,
                pass@ == password@,
                search_accounts(all, user_name@, password@) == search_accounts(all.skip(i as int), user_name@, password@),
            decreases ls@.len() - i,
        {
            proof {
                assert(all.skip(i as int)[0] == ls@[i as int]@);
                assert(all.skip(i as int).drop_first() == all.skip(i + 1));
            }
            let trimmed = trim_chars(ls[i].as_slice());
            let (found_user, found_password) = match split_once_chars(trimmed.as_slice(), SEP) {
                Some(p) => p,
                None => return Err(IoError::new(IoErrorKind::InvalidData, MSG_INVALID_FORMAT)),
            };
            let found_user = string_from_chars(found_user.as_slice());
            if found_user == user {
                let found_password = string_from_chars(found_password.as_slice());
                if found_password == pass {
                    return Ok(LoginResult::Accepted);
                } else {
                    return Ok(LoginResult::InvalidPassword);
                }
            }
            i = i + 1;
        }
        proof {
            assert(all.skip(i as int) == Seq::<Seq<char>>::empty());
        }
        Ok(LoginResult::UsernameNotFound)
    }
}

proof fn lemma_load_fails_extends(ls: Seq<Seq<char>>, k: nat, n: nat)
    requires
        k <= n,
        load_accounts(ls, k) is Err,
    ensures
        load_accounts(ls, n) == load_accounts(ls, k),
    decreases n - k,
{
    if k < n {
        lemma_load_fails_extends(ls, k + 1, n);
    }
}

/// Loading the first `k` lines gives one entry per line, in order.
proof fn lemma_loaded_entries(ls: Seq<Seq<char>>, k: nat)
    requires
        k <= ls.len(),
        load_accounts(ls, k) is Ok,
    ensures
        load_accounts(ls, k)->Ok_0.len() == k,
        forall|j: int| 0 <= j < k ==> account_entry(#[trigger] ls[j]) == Some(load_accounts(ls, k)->Ok_0[j]),
    decreases k,
{
    if k > 0 {
        lemma_loaded_entries(ls, (k - 1) as nat);
        let es = load_accounts(ls, (k - 1) as nat)->Ok_0;
        assert forall|j: int| 0 <= j < k implies account_entry(#[trigger] ls[j]) == Some(load_accounts(ls, k)->Ok_0[j]) by {
            if j < k - 1 {
                assert(load_accounts(ls, k)->Ok_0[j] == es[j]);
            }
        }
    }
}

/// Searching lines whose first entries are `es` finds what `es` holds, or
/// goes on past them.
proof fn lemma_search_through_entries(ls: Seq<Seq<char>>, es: Seq<(Seq<char>, Seq<char>)>, user: Seq<char>, password: Seq<char>)
    requires
        es.len() <= ls.len(),
        forall|j: int| 0 <= j < es.len() ==> account_entry(#[trigger] ls[j]) == Some(es[j]),
    ensures
        search_accounts(ls, user, password) == match password_of(es, user) {
            Some(p) => Ok::<LoginResult, ()>(check_password(p, password)),
            None => search_accounts(ls.skip(es.len() as int), user, password),
        },
    decreases es.len(),
{
    if es.len() == 0 {
        assert(ls.skip(0) == ls);
    } else {
        assert(account_entry(ls[0]) == Some(es[0]));
        if es[0].0 != user {
            let rest = ls.drop_first();
            assert forall|j: int| 0 <= j < es.drop_first().len() implies account_entry(#[trigger] rest[j]) == Some(es.drop_first()[j]) by {
                assert(rest[j] == ls[j + 1]);
            }
            lemma_search_through_entries(rest, es.drop_first(), user, password);
            assert(rest.skip(es.len() - 1) == ls.skip(es.len() as int));
        }
    }
}

/// A login made from the accounts file whose text is `text` (at `path`)
/// answers as the file does: whenever [`SimpleLogin::login`] decides
/// without reading the file again, searching the whole file gives the same
/// answer.
pub proof fn lemma_login_agrees_with_file(
    login: &SimpleLogin,
    text: Seq<char>,
    path: Seq<char>,
    user: Seq<char>,
    password: Seq<char>,
)
    requires
        load_accounts(lines(text), cached_lines(lines(text).len())) == Ok::<Seq<(Seq<char>, Seq<char>)>, Seq<char>>(
            login.spec_cache(),
        ),
        login.spec_path() == (if lines(text).len() > CACHE_SIZE {
            Some(path)
        } else {
            None
        }),
    ensures
        cached_login(login.spec_cache(), login.spec_path(), user, password) matches Some(r) ==> search_accounts(
            lines(text),
            user,
            password,
        ) == Ok::<LoginResult, ()>(r),
{
    let ls = lines(text);
    let k = cached_lines(ls.len());
    lemma_loaded_entries(ls, k);
    let cache = login.spec_cache();
    lemma_search_through_entries(ls, cache, user, password);
    if ls.len() <= CACHE_SIZE {
        assert(ls.skip(k as int).len() == 0);
    }
}

/// User name of a line of the accounts file, if it is an account.
pub open spec fn entry_user(line: Seq<char>) -> Option<Seq<char>> {
    match account_entry(line) {
        Some((u, _)) => Some(u),
        None => None,
    }
}

/// Whether every line of `ls` is an account and no user name is on two
/// lines.
pub open spec fn accounts_file(ls: Seq<Seq<char>>) -> bool {
    &&& forall|j: int| 0 <= j < ls.len() ==> (#[trigger] account_entry(ls[j])) is Some
    &&& forall|i: int, j: int|
        0 <= i < j < ls.len() ==> #[trigger] entry_user(ls[i]) != #[trigger] entry_user(ls[j])
}

/// What a login with `user` and `password` answers against the accounts
/// lines `ls`: accepted when a line holds that user with that password, a
/// wrong password when a line holds that user with another one, and an
/// unknown user otherwise.
pub open spec fn file_verdict(ls: Seq<Seq<char>>, user: Seq<char>, password: Seq<char>) -> LoginResult {
    if exists|j: int| 0 <= j < ls.len() && #[trigger] account_entry(ls[j]) == Some((user, password)) {
        LoginResult::Accepted
    } else if exists|j: int| 0 <= j < ls.len() && #[trigger] entry_user(ls[j]) == Some(user) {
        LoginResult::InvalidPassword
    } else {
        LoginResult::UsernameNotFound
    }
}

/// On an accounts file, searching the lines answers [`file_verdict`].
proof fn lemma_search_is_verdict(ls: Seq<Seq<char>>, user: Seq<char>, password: Seq<char>)
    requires
        accounts_file(ls),
    ensures
        search_accounts(ls, user, password) == Ok::<LoginResult, ()>(file_verdict(ls, user, password)),
    decreases ls.len(),
{
    if ls.len() > 0 {
        let rest = ls.drop_first();
        assert(account_entry(ls[0]) is Some);
        let (u0, p0) = account_entry(ls[0])->0;
        assert forall|j: int| 0 <= j < rest.len() implies (#[trigger] account_entry(rest[j])) is Some by {
            assert(rest[j] == ls[j + 1]);
            assert(account_entry(ls[j + 1]) is Some);
        }
        assert forall|i: int, j: int| 0 <= i < j < rest.len() implies #[trigger] entry_user(rest[i])
            != #[trigger] entry_user(rest[j]) by {
            assert(rest[i] == ls[i + 1]);
            assert(rest[j] == ls[j + 1]);
            assert(entry_user(ls[i + 1]) != entry_user(ls[j + 1]));
        }
        if u0 == user {
            assert forall|j: int| 1 <= j < ls.len() implies #[trigger] entry_user(ls[j]) != Some(user) by {
                assert(entry_user(ls[0]) != entry_user(ls[j]));
            }
            if p0 == password {
                assert(account_entry(ls[0]) == Some((user, password)));
            } else {
                assert(entry_user(ls[0]) == Some(user));
                assert forall|j: int| 0 <= j < ls.len() implies #[trigger] account_entry(ls[j]) != Some((user, password)) by {
                    if j > 0 {
                        assert(entry_user(ls[j]) != Some(user));
                    }
                }
            }
        } else {
            lemma_search_is_verdict(rest, user, password);
            assert forall|j: int| 0 <= j < ls.len() && #[trigger] account_entry(ls[j]) == Some((user, password)) implies
                exists|k: int| 0 <= k < rest.len() && #[trigger] account_entry(rest[k]) == Some((user, password)) by {
                assert(j > 0);
                assert(rest[j - 1] == ls[j]);
            }
            assert forall|j: int| 0 <= j < rest.len() && #[trigger] account_entry(rest[j]) == Some((user, password)) implies
                exists|k: int| 0 <= k < ls.len() && #[trigger] account_entry(ls[k]) == Some((user, password)) by {
                assert(rest[j] == ls[j + 1]);
            }
            assert forall|j: int| 0 <= j < ls.len() && #[trigger] entry_user(ls[j]) == Some(user) implies
                exists|k: int| 0 <= k < rest.len() && #[trigger] entry_user(rest[k]) == Some(user) by {
                assert(j > 0);
                assert(rest[j - 1] == ls[j]);
            }
            assert forall|j: int| 0 <= j < rest.len() && #[trigger] entry_user(rest[j]) == Some(user) implies
                exists|k: int| 0 <= k < ls.len() && #[trigger] entry_user(ls[k]) == Some(user) by {
                assert(rest[j] == ls[j + 1]);
            }
        }
    }
}

/// A login made from an accounts file answers as the whole file does: on
/// a file whose lines are all accounts with distinct user names, the
/// answer of [`SimpleLogin::login`], when it gives one, is
/// [`file_verdict`]; when it gives none the path of the file is kept, and
/// searching the file ([`SimpleLogin::search_in_file`]) answers
/// [`file_verdict`].
pub proof fn lemma_login_answers_as_file(
    login: &SimpleLogin,
    text: Seq<char>,
    path: Seq<char>,
    user: Seq<char>,
    password: Seq<char>,
)
    requires
        accounts_file(lines(text)),
        load_accounts(lines(text), cached_lines(lines(text).len())) == Ok::<Seq<(Seq<char>, Seq<char>)>, Seq<char>>(
            login.spec_cache(),
        ),
        login.spec_path() == (if lines(text).len() > CACHE_SIZE {
            Some(path)
        } else {
            None
        }),
    ensures
        search_accounts(lines(text), user, password) == Ok::<LoginResult, ()>(file_verdict(lines(text), user, password)),
        cached_login(login.spec_cache(), login.spec_path(), user, password) matches Some(r) ==> r == file_verdict(
            lines(text),
            user,
            password,
        ),
        cached_login(login.spec_cache(), login.spec_path(), user, password) is None ==> login.spec_path() == Some(path),
{
    lemma_search_is_verdict(lines(text), user, password);
    lemma_login_agrees_with_file(login, text, path, user, password);
}

} // verus!
