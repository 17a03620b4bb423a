use mqtt_server::clients_manager::login::search_in_file;
use mqtt_server::clients_manager::simple_login::{LoginStep, SimpleLogin};
use mqtt_server::io_error::IoErrorKind;
use mqtt_server::server::server_error::ServerErrorKind;
use mqtt_server::traits::LoginResult;

fn valid_accounts_file() -> &'static str {
    "efoppiano,105836
FacuMastri,55555
NicolasZulaica,password
fdelu,fdelu"
}

fn invalid_accounts_file() -> &'static str {
    "efoppiano,105836
FacuMastri;55555
NicolasZulaica,password
fdelu,fdelu"
}

#[test]
fn login_test_search_first_account() {
    let password = search_in_file(valid_accounts_file(), "efoppiano").unwrap();
    assert_eq!(password, "105836");
}

#[test]
fn login_test_search_last_account() {
    let password = search_in_file(valid_accounts_file(), "fdelu").unwrap();
    assert_eq!(password, "fdelu");
}

#[test]
fn login_test_username_not_in_file() {
    let password = search_in_file(valid_accounts_file(), "NoExiste");
    assert_eq!(password.err().unwrap().kind(), ServerErrorKind::ClientNotInWhitelist);
}

#[test]
fn login_test_invalid_file_format() {
    let password = search_in_file(invalid_accounts_file(), "FacuMastri");
    assert!(password.is_err());
}

#[test]
fn login_not_found_message_names_the_user() {
    let error = search_in_file(valid_accounts_file(), "NoExiste").unwrap_err();
    assert_eq!(error.msg(), "Cliente con usuario NoExiste no se encontro en el archivo de cuentas");
}

#[test]
fn simple_login_test_search_first_account() {
    let login = SimpleLogin::new_from_stream(valid_accounts_file(), "").unwrap();

    let result = login.login("efoppiano", "105836").unwrap();
    assert_eq!(result, LoginResult::Accepted);
}

#[test]
fn simple_login_test_search_last_account() {
    let login = SimpleLogin::new_from_stream(valid_accounts_file(), "").unwrap();

    let result = login.login("fdelu", "fdelu").unwrap();
    assert_eq!(result, LoginResult::Accepted);
}

#[test]
fn test_invalid_password() {
    let login = SimpleLogin::new_from_stream(valid_accounts_file(), "").unwrap();

    let result = login.login("FacuMastri", "ContraseñaInvalida").unwrap();
    assert_eq!(result, LoginResult::InvalidPassword);
}

#[test]
fn simple_login_test_username_not_in_file() {
    let login = SimpleLogin::new_from_stream(valid_accounts_file(), "").unwrap();

    let result = login.login("NoExiste", "password").unwrap();
    assert_eq!(result, LoginResult::UsernameNotFound);
}

#[test]
fn simple_login_test_invalid_file_format() {
    let error = SimpleLogin::new_from_stream(invalid_accounts_file(), "").unwrap_err();

    assert_eq!(error.kind(), IoErrorKind::InvalidData);
}

#[test]
fn simple_login_duplicated_user_is_invalid_data() {
    let error = SimpleLogin::new_from_stream("a,1\na,2", "").unwrap_err();
    assert_eq!(error.kind(), IoErrorKind::InvalidData);
    assert_eq!(error.msg(), "Usuario duplicado");
}

#[test]
fn simple_login_keeps_path_of_long_files() {
    let mut text = String::new();
    for i in 0..130 {
        text.push_str(&format!("user{},pass{}\n", i, i));
    }
    let login = SimpleLogin::new_from_stream(&text, "accounts.csv").unwrap();
    assert_eq!(login.path(), Some("accounts.csv"));
    assert_eq!(login.login("user0", "pass0"), Some(LoginResult::Accepted));
    assert_eq!(login.login("user129", "pass129"), None);
    assert_eq!(SimpleLogin::search_in_file(&text, "user129", "pass129").unwrap(), LoginResult::Accepted);
    assert_eq!(SimpleLogin::search_in_file(&text, "user129", "x").unwrap(), LoginResult::InvalidPassword);
    assert_eq!(SimpleLogin::search_in_file(&text, "nobody", "x").unwrap(), LoginResult::UsernameNotFound);
}

#[test]
fn simple_login_short_file_has_no_path() {
    let login = SimpleLogin::new_from_stream(valid_accounts_file(), "accounts.csv").unwrap();
    assert_eq!(login.path(), None);
}

#[test]
fn simple_login_cache_agrees_with_file() {
    let text = valid_accounts_file();
    let login = SimpleLogin::new_from_stream(text, "accounts.csv").unwrap();
    for (user, password) in [("efoppiano", "105836"), ("fdelu", "x"), ("nobody", "y")] {
        let cached = login.login(user, password).unwrap();
        assert_eq!(SimpleLogin::search_in_file(text, user, password).unwrap(), cached);
    }
}

#[test]
fn simple_login_file_of_exactly_cache_size_is_held_whole() {
    let mut text = String::new();
    for i in 0..128 {
        text.push_str(&format!("user{},pass{}\n", i, i));
    }
    let login = SimpleLogin::new_from_stream(&text, "accounts.csv").unwrap();
    assert_eq!(login.path(), None);
    assert_eq!(login.login("user127", "pass127"), Some(LoginResult::Accepted));
    assert_eq!(login.login("nobody", "x"), Some(LoginResult::UsernameNotFound));
    let mut longer = text.clone();
    longer.push_str("user128,pass128\n");
    let login = SimpleLogin::new_from_stream(&longer, "accounts.csv").unwrap();
    assert_eq!(login.path(), Some("accounts.csv"));
}

#[test]
fn simple_login_step_answers_or_asks_for_the_file() {
    let mut text = String::new();
    for i in 0..130 {
        text.push_str(&format!("user{},pass{}\n", i, i));
    }
    let login = SimpleLogin::new_from_stream(&text, "accounts.csv").unwrap();
    assert!(matches!(login.login_step("user1", "pass1"), LoginStep::Answer(LoginResult::Accepted)));
    match login.login_step("user129", "pass129") {
        LoginStep::SearchFile(path) => assert_eq!(path, "accounts.csv"),
        LoginStep::Answer(_) => panic!("expected a search of the file"),
    }
    let short = SimpleLogin::new_from_stream("a,b", "x").unwrap();
    assert!(matches!(short.login_step("c", "d"), LoginStep::Answer(LoginResult::UsernameNotFound)));
}
