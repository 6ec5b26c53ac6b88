use atlas_launcher::accounts::{get_active_account, remove_account, AccountManager, MinecraftAccount};
use atlas_launcher::error::LaunchError;

fn account(name: &str, uuid: &str, active: bool) -> MinecraftAccount {
    MinecraftAccount {
        username: name.to_string(),
        uuid: uuid.to_string(),
        refresh_token: "r".to_string(),
        access_token: format!("token-{uuid}"),
        active,
        avatar_64: String::new(),
    }
}

#[test]
fn active_account_lookup() {
    let list = vec![account("a", "1", false), account("b", "2", true), account("c", "3", true)];
    assert_eq!(get_active_account(&list).unwrap().username, "b");
    assert_eq!(get_active_account(&vec![account("a", "1", false)]).err(), Some(LaunchError::NoActiveAccount));
    assert_eq!(get_active_account(&vec![]).err(), Some(LaunchError::NoActiveAccount));
}

#[test]
fn account_file() {
    assert_eq!(remove_account("abc"), "launcher/auth/abc.json");
}

#[test]
fn manager_operations() {
    let mut m = AccountManager::new(vec![account("a", "1", true), account("b", "2", false)]);
    assert!(m.is_account_active(&"1".to_string()));
    assert!(!m.is_account_active(&"2".to_string()));
    assert!(!m.is_account_active(&"9".to_string()));
    m.set_active_account(&"2".to_string());
    assert!(!m.accounts()[0].active);
    assert!(m.accounts()[1].active);
    m.add_account(account("b2", "2", false), false);
    let names: Vec<String> = m.accounts().iter().map(|a| a.username.clone()).collect();
    assert_eq!(names, vec!["a", "b2"]);
    assert!(m.is_account_active(&"2".to_string()));
    m.add_account(account("c", "3", false), true);
    assert!(m.is_account_active(&"3".to_string()));
    assert!(!m.is_account_active(&"2".to_string()));
    m.remove_account(&"1".to_string());
    assert_eq!(m.accounts().len(), 2);
    assert!(m.get_account(&"1".to_string()).is_none());
    assert_eq!(m.get_account(&"3".to_string()).unwrap().username, "c");
    assert!(account("x", "3", true) == account("y", "3", false));
}
