use mc_launch::accounts::{
    account_can_launch, game_auth, offline_grant, store_grant, Account, AccountType, TokenGrant,
};

fn test_account(account_type: AccountType) -> Account {
    Account {
        uuid: "00000000-0000-0000-0000-000000000001".to_owned(),
        username: "TestPlayer".to_owned(),
        account_type,
        active: true,
        refresh_token: Some("refresh".to_owned()),
        cached_mc_token: None,
        cached_mc_token_expires_at: None,
    }
}

#[test]
fn offline_account_cannot_launch_without_microsoft_account() {
    let offline = test_account(AccountType::Offline);

    assert!(!account_can_launch(false, &offline));
}

#[test]
fn offline_account_can_launch_with_microsoft_account() {
    let offline = test_account(AccountType::Offline);

    assert!(account_can_launch(true, &offline));
}

#[test]
fn microsoft_account_can_launch_without_offline_gate() {
    let microsoft = test_account(AccountType::Microsoft);

    assert!(account_can_launch(false, &microsoft));
}

#[test]
fn offline_grant_has_nothing_to_store() {
    let grant = offline_grant();
    assert_eq!(grant.token, "0");
    assert_eq!(grant.refresh_token, None);
    assert_eq!(grant.expires_at, None);
}

#[test]
fn credentials_name_the_kind_of_user() {
    let auth = game_auth(&test_account(AccountType::Microsoft), &"token".to_owned());
    assert_eq!(auth.username, "TestPlayer");
    assert_eq!(auth.uuid, "00000000-0000-0000-0000-000000000001");
    assert_eq!(auth.token, "token");
    assert_eq!(auth.user_type, "msa");
    let auth = game_auth(&test_account(AccountType::Offline), &"0".to_owned());
    assert_eq!(auth.user_type, "legacy");
}

fn account_with_uuid(uuid: &str) -> Account {
    Account { uuid: uuid.to_owned(), ..test_account(AccountType::Microsoft) }
}

#[test]
fn grant_reaches_only_the_first_account_with_the_identifier() {
    let mut accounts =
        vec![account_with_uuid("a"), account_with_uuid("b"), account_with_uuid("b")];
    let grant = TokenGrant {
        token: "fresh".to_owned(),
        refresh_token: Some("next".to_owned()),
        expires_at: Some(1_700_000_000),
    };
    assert!(store_grant(&mut accounts, &"b".to_owned(), &grant));
    assert_eq!(accounts.len(), 3);
    assert_eq!(accounts[0].refresh_token.as_deref(), Some("refresh"));
    assert_eq!(accounts[0].cached_mc_token, None);
    assert_eq!(accounts[1].refresh_token.as_deref(), Some("next"));
    assert_eq!(accounts[1].cached_mc_token.as_deref(), Some("fresh"));
    assert_eq!(accounts[1].cached_mc_token_expires_at, Some(1_700_000_000));
    assert_eq!(accounts[1].username, "TestPlayer");
    assert!(accounts[1].active);
    assert_eq!(accounts[2].refresh_token.as_deref(), Some("refresh"));
    assert_eq!(accounts[2].cached_mc_token, None);
}

#[test]
fn token_without_expiry_is_not_cached() {
    let mut accounts = vec![account_with_uuid("a")];
    let grant = TokenGrant {
        token: "fresh".to_owned(),
        refresh_token: Some("next".to_owned()),
        expires_at: None,
    };
    assert!(store_grant(&mut accounts, &"a".to_owned(), &grant));
    assert_eq!(accounts[0].refresh_token.as_deref(), Some("next"));
    assert_eq!(accounts[0].cached_mc_token, None);
    assert_eq!(accounts[0].cached_mc_token_expires_at, None);
}

#[test]
fn nothing_new_is_nothing_to_save() {
    let mut accounts = vec![account_with_uuid("a")];
    assert!(!store_grant(&mut accounts, &"a".to_owned(), &offline_grant()));
    let grant = TokenGrant {
        token: "fresh".to_owned(),
        refresh_token: None,
        expires_at: Some(1),
    };
    assert!(!store_grant(&mut accounts, &"z".to_owned(), &grant));
    assert_eq!(accounts[0].cached_mc_token, None);
    assert!(store_grant(&mut accounts, &"a".to_owned(), &grant));
    assert_eq!(accounts[0].refresh_token.as_deref(), Some("refresh"));
    assert_eq!(accounts[0].cached_mc_token.as_deref(), Some("fresh"));
}
