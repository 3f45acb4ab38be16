//! The account that a launch plays under: who may launch, and what a token
//! refresh changes in the stored accounts.

use vstd::prelude::*;

verus! {

/// How an account is authenticated.
#[derive(Clone, Copy, Debug, PartialEq, Eq, Structural)]
pub enum AccountType {
    Microsoft,
    Offline,
}

/// A stored account.
#[derive(Debug)]
pub struct Account {
    pub uuid: String,
    pub username: String,
    pub account_type: AccountType,
    pub active: bool,
    pub refresh_token: Option<String>,
    pub cached_mc_token: Option<String>,
    /// When the cached token expires, in seconds since the Unix epoch.
    pub cached_mc_token_expires_at: Option<i64>,
}

/// What the authentication service hands out for an account.
#[derive(Debug)]
pub struct TokenGrant {
    pub token: String,
    /// A new refresh token, if the old one was exchanged.
    pub refresh_token: Option<String>,
    /// When the token expires, if it was newly issued.
    pub expires_at: Option<i64>,
}

/// The credentials that the game is started with.
#[derive(Debug)]
pub struct GameAuth {
    pub username: String,
    pub uuid: String,
    pub token: String,
    pub user_type: String,
}

/// Whether an account may launch: a Microsoft account always, an offline
/// account only beside a Microsoft account.
pub open spec fn may_launch(has_microsoft_account: bool, account: Account) -> bool {
    account.account_type == AccountType::Microsoft || has_microsoft_account
}

/// The kind of user that the game is told of.
pub open spec fn user_type_text(account_type: AccountType) -> Seq<char> {
    match account_type {
        AccountType::Microsoft => "msa"@,
        AccountType::Offline => "legacy"@,
    }
}

/// Whether `auth` holds the credentials of `account` with `token`.
pub open spec fn is_auth_of(auth: GameAuth, account: Account, token: Seq<char>) -> bool {
    &&& auth.username@ == account.username@
    &&& auth.uuid@ == account.uuid@
    &&& auth.token@ == token
    &&& auth.user_type@ == user_type_text(account.account_type)
}

/// An account with what a grant brought: a new refresh token replaces the old
/// one, and a token that was newly issued is cached with its expiry.
pub open spec fn with_grant(account: Account, grant: TokenGrant) -> Account {
    Account {
        refresh_token: if grant.refresh_token is Some {
            grant.refresh_token
        } else {
            account.refresh_token
        },
        cached_mc_token: if grant.expires_at is Some {
            Some(grant.token)
        } else {
            account.cached_mc_token
        },
        cached_mc_token_expires_at: if grant.expires_at is Some {
            grant.expires_at
        } else {
            account.cached_mc_token_expires_at
        },
        ..account
    }
}

/// Whether a grant brings something to store.
pub open spec fn is_news(grant: TokenGrant) -> bool {
    grant.refresh_token is Some || grant.expires_at is Some
}

/// Whether some stored account has this identifier.
pub open spec fn is_stored(accounts: Seq<Account>, uuid: Seq<char>) -> bool {
    exists|i: int| 0 <= i < accounts.len() && (#[trigger] accounts[i]).uuid@ == uuid
}

/// Whether the account at `i` is the first with this identifier.
pub open spec fn is_first_with(accounts: Seq<Account>, uuid: Seq<char>, i: int) -> bool {
    &&& 0 <= i < accounts.len()
    &&& accounts[i].uuid@ == uuid
    &&& forall|j: int| 0 <= j < i ==> (#[trigger] accounts[j]).uuid@ != uuid
}

/// Whether `after` holds the accounts `before` with a grant applied to the
/// first account with the identifier, and to no other.
pub open spec fn grant_stored(
    before: Seq<Account>,
    uuid: Seq<char>,
    grant: TokenGrant,
    after: Seq<Account>,
) -> bool {
    &&& !is_stored(before, uuid) ==> after == before
    &&& forall|i: int| #[trigger]
        is_first_with(before, uuid, i) ==> after == before.update(i, with_grant(before[i], grant))
}

/// Whether an account may launch.
pub fn account_can_launch(has_microsoft_account: bool, account: &Account) -> (allowed: bool)
    ensures
        allowed == may_launch(has_microsoft_account, *account),
{
    account.account_type == AccountType::Microsoft || has_microsoft_account
}

/// The grant of an account that no service knows: the token `0`, and nothing
/// to store.
pub fn offline_grant() -> (grant: TokenGrant)
    ensures
        grant.token@ == "0"@,
        grant.refresh_token is None,
        grant.expires_at is None,
{
    TokenGrant { token: "0".to_owned(), refresh_token: None, expires_at: None }
}

/// The credentials of an account with a token.
pub fn game_auth(account: &Account, token: &String) -> (auth: GameAuth)
    ensures
        is_auth_of(auth, *account, token@),
{
    let user_type = match account.account_type {
        AccountType::Microsoft => "msa",
        AccountType::Offline => "legacy",
    };
    GameAuth {
        username: account.username.clone(),
        uuid: account.uuid.clone(),
        token: token.clone(),
        user_type: user_type.to_owned(),
    }
}

/// Applies a grant to the first stored account with the identifier, and says
/// whether anything changed that has to be saved.
pub fn store_grant(accounts: &mut Vec<Account>, uuid: &String, grant: &TokenGrant) -> (changed:
    bool)
    ensures
        grant_stored(old(accounts)@, uuid@, *grant, final(accounts)@),
        changed == (is_stored(old(accounts)@, uuid@) && is_news(*grant)),
{
    let ghost before = accounts@;
    let mut i: usize = 0;
    while i < accounts.len()
        invariant
            i <= accounts@.len(),
            accounts@ == before,
            before == old(accounts)@,
            forall|j: int| 0 <= j < i ==> (#[trigger] accounts@[j]).uuid@ != uuid@,
        decreases accounts@.len() - i,
    {
        if accounts[i].uuid == *uuid {
            let mut changed = false;
            let refresh_token = match &grant.refresh_token {
                Some(refresh_token) => {
                    changed = true;
                    Some(refresh_token.clone())
                },
                None => accounts[i].refresh_token.clone(),
            };
            let (cached_mc_token, expires_at) = match grant.expires_at {
                Some(expires_at) => {
                    changed = true;
                    (Some(grant.token.clone()), Some(expires_at))
                },
                None => (
                    accounts[i].cached_mc_token.clone(),
                    accounts[i].cached_mc_token_expires_at,
                ),
            };
            let updated = Account {
                uuid: accounts[i].uuid.clone(),
                username: accounts[i].username.clone(),
                account_type: accounts[i].account_type,
                active: accounts[i].active,
                refresh_token,
                cached_mc_token,
                cached_mc_token_expires_at: expires_at,
            };
            assert(updated == with_grant(before[i as int], *grant));
            accounts[i] = updated;
            assert(is_first_with(before, uuid@, i as int));
            assert(forall|k: int| #[trigger] is_first_with(before, uuid@, k) ==> k == i);
            return changed;
        }
        i += 1;
    }
    false
}

/// A grant reaches at most one stored account, and there only the tokens: the
/// number of accounts, their identifiers, names, types and which one is active
/// stay as they were.
pub proof fn law_grant_keeps_identities(
    before: Seq<Account>,
    uuid: Seq<char>,
    grant: TokenGrant,
    after: Seq<Account>,
)
    requires
        grant_stored(before, uuid, grant, after),
    ensures
        after.len() == before.len(),
        forall|i: int|
            #![trigger after[i]]
            0 <= i < before.len() ==> {
                &&& after[i].uuid == before[i].uuid
                &&& after[i].username == before[i].username
                &&& after[i].account_type == before[i].account_type
                &&& after[i].active == before[i].active
                &&& after[i] != before[i] ==> before[i].uuid@ == uuid
            },
{
    if is_stored(before, uuid) {
        let i = choose|i: int| 0 <= i < before.len() && (#[trigger] before[i]).uuid@ == uuid;
        lemma_first_exists(before, uuid, i);
        let first = choose|k: int| #[trigger] is_first_with(before, uuid, k);
        assert(after == before.update(first, with_grant(before[first], grant)));
    }
}

/// If an account has the identifier, there is a first one that has it.
proof fn lemma_first_exists(accounts: Seq<Account>, uuid: Seq<char>, i: int)
    requires
        0 <= i < accounts.len(),
        accounts[i].uuid@ == uuid,
    ensures
        exists|k: int| #[trigger] is_first_with(accounts, uuid, k),
    decreases i,
{
    if exists|j: int| 0 <= j < i && (#[trigger] accounts[j]).uuid@ == uuid {
        let j = choose|j: int| 0 <= j < i && (#[trigger] accounts[j]).uuid@ == uuid;
        lemma_first_exists(accounts, uuid, j);
    } else {
        assert(is_first_with(accounts, uuid, i));
    }
}

/// A Microsoft account may always launch, an offline account exactly where there
/// is a Microsoft account.
pub proof fn law_who_may_launch(has_microsoft_account: bool, account: Account)
    ensures
        account.account_type == AccountType::Microsoft ==> may_launch(
            has_microsoft_account,
            account,
        ),
        account.account_type == AccountType::Offline ==> may_launch(has_microsoft_account, account)
            == has_microsoft_account,
{
}

/// Credentials are the account's own name and identifier with the token, and the
/// game is told which kind of user it has.
pub proof fn law_credentials_are_the_accounts(auth: GameAuth, account: Account, token: Seq<char>)
    requires
        is_auth_of(auth, account, token),
    ensures
        auth.username@ == account.username@,
        auth.uuid@ == account.uuid@,
        auth.token@ == token,
        account.account_type == AccountType::Microsoft ==> auth.user_type@ == "msa"@,
        account.account_type == AccountType::Offline ==> auth.user_type@ == "legacy"@,
{
}

/// Whatever was stored before, the first account with the identifier ends up with
/// the refresh token that came and, where an expiry came, with exactly the token
/// that was granted and that expiry. What did not come stays as it was, and so
/// does every other account.
pub proof fn law_grant_is_stored_as_it_came(
    before: Seq<Account>,
    uuid: Seq<char>,
    grant: TokenGrant,
    after: Seq<Account>,
    i: int,
)
    requires
        grant_stored(before, uuid, grant, after),
        0 <= i < before.len(),
        before[i].uuid@ == uuid,
        forall|j: int| 0 <= j < i ==> (#[trigger] before[j]).uuid@ != uuid,
    ensures
        grant.expires_at is Some ==> after[i].cached_mc_token == Some(grant.token)
            && after[i].cached_mc_token_expires_at == grant.expires_at,
        grant.expires_at is None ==> after[i].cached_mc_token == before[i].cached_mc_token
            && after[i].cached_mc_token_expires_at == before[i].cached_mc_token_expires_at,
        grant.refresh_token is Some ==> after[i].refresh_token == grant.refresh_token,
        grant.refresh_token is None ==> after[i].refresh_token == before[i].refresh_token,
        after[i].uuid == before[i].uuid,
        after[i].username == before[i].username,
        after[i].account_type == before[i].account_type,
        after[i].active == before[i].active,
        after.len() == before.len(),
        forall|j: int| 0 <= j < before.len() && j != i ==> #[trigger] after[j] == before[j],
{
    assert(is_first_with(before, uuid, i));
}

/// A grant for an identifier that no account has changes nothing.
pub proof fn law_unknown_account_stores_nothing(
    before: Seq<Account>,
    uuid: Seq<char>,
    grant: TokenGrant,
    after: Seq<Account>,
)
    requires
        grant_stored(before, uuid, grant, after),
        forall|j: int| 0 <= j < before.len() ==> (#[trigger] before[j]).uuid@ != uuid,
    ensures
        after == before,
        !is_stored(before, uuid),
{
}

/// What does not have to be saved has not changed, and whatever a grant brings
/// for a stored account has to be saved. Storing the same grant again changes
/// nothing more.
pub proof fn law_changes_are_saved(
    before: Seq<Account>,
    uuid: Seq<char>,
    grant: TokenGrant,
    after: Seq<Account>,
    again: Seq<Account>,
)
    requires
        grant_stored(before, uuid, grant, after),
        grant_stored(after, uuid, grant, again),
    ensures
        !(is_stored(before, uuid) && is_news(grant)) ==> after == before,
        grant.refresh_token is Some || grant.expires_at is Some ==> is_news(grant),
        grant.refresh_token is None && grant.expires_at is None ==> !is_news(grant),
        (exists|i: int| 0 <= i < before.len() && (#[trigger] before[i]).uuid@ == uuid)
            ==> is_stored(before, uuid),
        again == after,
{
    if is_stored(before, uuid) {
        let i = choose|i: int| 0 <= i < before.len() && (#[trigger] before[i]).uuid@ == uuid;
        lemma_first_exists(before, uuid, i);
        let first = choose|k: int| #[trigger] is_first_with(before, uuid, k);
        assert(after == before.update(first, with_grant(before[first], grant)));
        assert(after[first].uuid == before[first].uuid);
        assert(is_first_with(after, uuid, first)) by {
            assert forall|j: int| 0 <= j < first implies (#[trigger] after[j]).uuid@ != uuid by {
                assert(after[j] == before[j]);
            }
        }
        assert(again == after.update(first, with_grant(after[first], grant)));
        assert(with_grant(after[first], grant) == after[first]);
        assert(again =~= after);
        if !is_news(grant) {
            assert(with_grant(before[first], grant) == before[first]);
            assert(after =~= before);
        }
    } else {
        assert(after == before);
    }
}

} // verus!
