//! The signed-in accounts and which one is active.

use vstd::prelude::*;
use crate::error::LaunchError;

verus! {

/// A signed-in account.
#[derive(Clone, Debug)]
pub struct MinecraftAccount {
    pub username: String,
    pub uuid: String,
    pub refresh_token: String,
    pub access_token: String,
    pub active: bool,
    pub avatar_64: String,
}

impl MinecraftAccount {
    /// A field-by-field copy.
    pub fn duplicate(&self) -> (r: MinecraftAccount)
        ensures
            r == *self,
    {
        MinecraftAccount {
            username: self.username.clone(),
            uuid: self.uuid.clone(),
            refresh_token: self.refresh_token.clone(),
            access_token: self.access_token.clone(),
            active: self.active,
            avatar_64: self.avatar_64.clone(),
        }
    }
}

impl PartialEq for MinecraftAccount {
    /// Accounts are the same account when their uuids are equal.
    fn eq(&self, other: &MinecraftAccount) -> (r: bool) {
        self.uuid == other.uuid
    }
}

impl vstd::std_specs::cmp::PartialEqSpecImpl for MinecraftAccount {
    open spec fn obeys_eq_spec() -> bool {
        true
    }

    open spec fn eq_spec(&self, other: &MinecraftAccount) -> bool {
        self.uuid@ == other.uuid@
    }
}

/// Index of the first account with `uuid`.
pub open spec fn find_account(s: Seq<MinecraftAccount>, uuid: Seq<char>) -> Option<int>
    decreases s.len(),
{
    if s.len() == 0 {
        None
    } else {
        match find_account(s.drop_last(), uuid) {
            Some(i) => Some(i),
            None => if s.last().uuid@ == uuid {
                Some(s.len() - 1)
            } else {
                None
            },
        }
    }
}

/// Index of the first active account.
pub open spec fn find_active(s: Seq<MinecraftAccount>) -> Option<int>
    decreases s.len(),
{
    if s.len() == 0 {
        None
    } else {
        match find_active(s.drop_last()) {
            Some(i) => Some(i),
            None => if s.last().active {
                Some(s.len() - 1)
            } else {
                None
            },
        }
    }
}

proof fn lemma_find_account(s: Seq<MinecraftAccount>, uuid: Seq<char>, n: int)
    requires
        0 <= n <= s.len(),
    ensures
        find_account(s.take(n), uuid) is Some ==> find_account(s, uuid) == find_account(s.take(n), uuid),
        find_account(s, uuid) matches Some(i) ==> 0 <= i < s.len() && s[i].uuid@ == uuid,
    decreases s.len(),
{
    if s.len() > 0 {
        if n < s.len() {
            assert(s.drop_last().take(n) =~= s.take(n));
            lemma_find_account(s.drop_last(), uuid, n);
        } else {
            assert(s.take(n) =~= s);
            lemma_find_account(s.drop_last(), uuid, n - 1);
        }
    } else {
        assert(s.take(n) =~= s);
    }
}

proof fn lemma_find_active(s: Seq<MinecraftAccount>, n: int)
    requires
        0 <= n <= s.len(),
    ensures
        find_active(s.take(n)) is Some ==> find_active(s) == find_active(s.take(n)),
        find_active(s) matches Some(i) ==> 0 <= i < s.len() && s[i].active,
    decreases s.len(),
{
    if s.len() > 0 {
        if n < s.len() {
            assert(s.drop_last().take(n) =~= s.take(n));
            lemma_find_active(s.drop_last(), n);
        } else {
            assert(s.take(n) =~= s);
            lemma_find_active(s.drop_last(), n - 1);
        }
    } else {
        assert(s.take(n) =~= s);
    }
}

fn position_of_account(s: &Vec<MinecraftAccount>, uuid: &String) -> (r: Option<usize>)
    ensures
        match r {
            Some(i) => find_account(s@, uuid@) == Some(i as int) && i < s@.len(),
            None => find_account(s@, uuid@) is None,
        },
{
    let mut i: usize = 0;
    while i < s.len()
        invariant
            i <= s@.len(),
            find_account(s@.take(i as int), uuid@) is None,
        decreases s@.len() - i,
    {
        proof {
            assert(s@.take(i as int + 1).drop_last() =~= s@.take(i as int));
        }
        if s[i].uuid == *uuid {
            proof {
                lemma_find_account(s@, uuid@, i as int + 1);
            }
            return Some(i);
        }
        i += 1;
    }
    proof {
        assert(s@.take(s@.len() as int) =~= s@);
    }
    None
}

/// The active account: the first one marked active.
pub fn get_active_account(accounts: &Vec<MinecraftAccount>) -> (r: Result<MinecraftAccount, LaunchError>)
    ensures
        match find_active(accounts@) {
            Some(i) => r == Ok::<MinecraftAccount, LaunchError>(accounts@[i]),
            None => r == Err::<MinecraftAccount, LaunchError>(LaunchError::NoActiveAccount),
        },
{
    let mut i: usize = 0;
    while i < accounts.len()
        invariant
            i <= accounts@.len(),
            find_active(accounts@.take(i as int)) is None,
        decreases accounts@.len() - i,
    {
        proof {
            assert(accounts@.take(i as int + 1).drop_last() =~= accounts@.take(i as int));
        }
        if accounts[i].active {
            proof {
                lemma_find_active(accounts@, i as int + 1);
            }
            return Ok(accounts[i].duplicate());
        }
        i += 1;
    }
    proof {
        assert(accounts@.take(accounts@.len() as int) =~= accounts@);
    }
    Err(LaunchError::NoActiveAccount)
}

/// The file, relative to the launcher root, that stores the account with
/// `uuid`; removing the account deletes it.
pub fn remove_account(uuid: &str) -> (r: String)
    ensures
        r@ == "launcher/auth/"@ + uuid@ + ".json"@,
{
    let mut p = String::from_str("launcher/auth/");
    p.append(uuid);
    p.append(".json");
    p
}

/// The accounts other than `uuid`'s, in order.
pub open spec fn without(s: Seq<MinecraftAccount>, uuid: Seq<char>) -> Seq<MinecraftAccount> {
    s.filter(|a: MinecraftAccount| a.uuid@ != uuid)
}

/// Every account with its active flag set exactly when its uuid is `uuid`.
pub open spec fn activated(s: Seq<MinecraftAccount>, uuid: Seq<char>) -> Seq<MinecraftAccount> {
    s.map_values(|a: MinecraftAccount| MinecraftAccount { active: a.uuid@ == uuid, ..a })
}

/// The list of signed-in accounts.
pub struct AccountManager {
    pub accounts: Vec<MinecraftAccount>,
}

impl AccountManager {
    /// A manager holding `accounts`.
    pub fn new(accounts: Vec<MinecraftAccount>) -> (r: AccountManager)
        ensures
            r.accounts@ == accounts@,
    {
        AccountManager { accounts }
    }

    /// A copy of the current accounts.
    pub fn accounts(&self) -> (r: Vec<MinecraftAccount>)
        ensures
            r@ == self.accounts@,
    {
        let mut out: Vec<MinecraftAccount> = Vec::new();
        let mut i: usize = 0;
        while i < self.accounts.len()
            invariant
                i <= self.accounts@.len(),
                out@ == self.accounts@.take(i as int),
            decreases self.accounts@.len() - i,
        {
            out.push(self.accounts[i].duplicate());
            proof {
                assert(self.accounts@.take(i as int + 1) =~= self.accounts@.take(i as int).push(self.accounts@[i as int]));
            }
            i += 1;
        }
        proof {
            assert(self.accounts@.take(self.accounts@.len() as int) =~= self.accounts@);
        }
        out
    }

    /// The account with `uuid`, if any.
    pub fn get_account(&self, uuid: &String) -> (r: Option<MinecraftAccount>)
        ensures
            match find_account(self.accounts@, uuid@) {
                Some(i) => r == Some(self.accounts@[i]),
                None => r is None,
            },
    {
        match position_of_account(&self.accounts, uuid) {
            Some(i) => Some(self.accounts[i].duplicate()),
            None => None,
        }
    }

    /// Whether the account with `uuid` exists and is active.
    pub fn is_account_active(&self, uuid: &String) -> (r: bool)
        ensures
            r == match find_account(self.accounts@, uuid@) {
                Some(i) => self.accounts@[i].active,
                None => false,
            },
    {
        match self.get_account(uuid) {
            Some(a) => a.active,
            None => false,
        }
    }

    /// Removes every account with `uuid`.
    pub fn remove_account(&mut self, uuid: &String)
        ensures
            final(self).accounts@ == without(old(self).accounts@, uuid@),
    {
        let mut old_list: Vec<MinecraftAccount> = Vec::new();
        old_list.append(&mut self.accounts);
        proof {
            assert(old_list@ =~= old(self).accounts@);
        }
        let mut out: Vec<MinecraftAccount> = Vec::new();
        let mut i: usize = 0;
        while i < old_list.len()
            invariant
                i <= old_list@.len(),
                out@ == old_list@.take(i as int).filter(|a: MinecraftAccount| a.uuid@ != uuid@),
            decreases old_list@.len() - i,
        {
            proof {
                assert(old_list@.take(i as int + 1) =~= old_list@.take(i as int).push(old_list@[i as int]));
                old_list@.take(i as int).lemma_filter_push(old_list@[i as int], |a: MinecraftAccount| a.uuid@ != uuid@);
            }
            if old_list[i].uuid != *uuid {
                out.push(old_list[i].duplicate());
            }
            i += 1;
        }
        proof {
            assert(old_list@.take(old_list@.len() as int) =~= old_list@);
        }
        self.accounts = out;
    }

    /// Marks the account with `uuid` active and every other one inactive.
    pub fn set_active_account(&mut self, uuid: &String)
        ensures
            final(self).accounts@ == activated(old(self).accounts@, uuid@),
    {
        let mut i: usize = 0;
        while i < self.accounts.len()
            invariant
                i <= self.accounts@.len(),
                self.accounts@.len() == old(self).accounts@.len(),
                forall|k: int| 0 <= k < i ==> self.accounts@[k] == (MinecraftAccount { active: old(self).accounts@[k].uuid@ == uuid@, ..old(self).accounts@[k] }),
                forall|k: int| i <= k < self.accounts@.len() ==> self.accounts@[k] == old(self).accounts@[k],
            decreases self.accounts@.len() - i,
        {
            let mut a = self.accounts[i].duplicate();
            a.active = a.uuid == *uuid;
            self.accounts.set(i, a);
            i += 1;
        }
        proof {
            assert(self.accounts@ =~= activated(old(self).accounts@, uuid@));
        }
    }

    /// Adds or replaces the account with `account`'s uuid, at the end of
    /// the list; it becomes the active one when `force_active` is set or
    /// the account it replaces was active.
    pub fn add_account(&mut self, account: MinecraftAccount, force_active: bool)
        ensures
            ({
                let was_active = match find_account(old(self).accounts@, account.uuid@) {
                    Some(i) => old(self).accounts@[i].active,
                    None => false,
                };
                let listed = without(old(self).accounts@, account.uuid@).push(account);
                final(self).accounts@ == if force_active || was_active {
                    activated(listed, account.uuid@)
                } else {
                    listed
                }
            }),
    {
        let uuid = account.uuid.clone();
        let set_active = force_active || self.is_account_active(&uuid);
        self.remove_account(&uuid);
        self.accounts.push(account);
        if set_active {
            self.set_active_account(&uuid);
        }
    }
}

} // verus!
