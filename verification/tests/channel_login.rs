use realms_core::auth::{ActiveLogins, LoginRefusal};
use realms_core::login::{check_account, AccountLookup, ChannelLoginRefusal};

#[test]
fn account_status_ok_is_admitted() {
    assert!(check_account(AccountLookup::Found("OK".to_string())).is_ok());
}

#[test]
fn account_failures_carry_their_status() {
    let blocked = check_account(AccountLookup::Found("BLOCK".to_string())).unwrap_err();
    assert_eq!(blocked.status(), "BLOCK");
    assert!(matches!(blocked, ChannelLoginRefusal::Status(_)));
    let lower = check_account(AccountLookup::Found("ok".to_string())).unwrap_err();
    assert_eq!(lower.status(), "ok");
    assert_eq!(check_account(AccountLookup::NotFound).unwrap_err().status(), "NOID");
    assert_eq!(check_account(AccountLookup::StoreDown).unwrap_err().status(), "NOTAVAIL");
}

#[test]
fn channel_login_admission_order() {
    let mut logins = ActiveLogins::new();
    // the channel has no version gate: the checks are NOID, SHUTDOWN, ALREADY
    assert!(matches!(logins.admit_login(None, 0, "a", false), Err(LoginRefusal::NoId)));
    assert!(matches!(logins.admit_login(None, 0, "test", true), Err(LoginRefusal::Shutdown)));
    let held = logins.admit_login(None, 0, "test", false);
    assert!(held.is_ok());
    assert!(matches!(logins.admit_login(None, 0, "test", false), Err(LoginRefusal::Already)));
    logins.release(held.ok().unwrap());
    assert!(logins.admit_login(None, 0, "test", false).is_ok());
}
