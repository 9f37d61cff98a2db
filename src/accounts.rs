//! Generated accounts as the life cycle sees them.
use crate::chain::ChainType;
use crate::text::{decimal_of, push_decimal};
use vstd::prelude::*;

verus! {

/// What every account of a chain offers.
pub trait Account {
    /// The public key or address.
    fn address(&self) -> String;

    /// The private key or secret, if available.
    fn secret(&self) -> Option<String>;

    /// The mnemonic phrase it was derived from, if any.
    fn mnemonic(&self) -> Option<String>;

    /// The derivation path, if any.
    fn derivation_path(&self) -> Option<String>;
}

/// One generated account, as kept in an instance's account file. The
/// balance is in base units.
#[derive(Debug, Clone)]
pub struct AccountRecord {
    pub address: String,
    pub secret: String,
    pub mnemonic: Option<String>,
    pub derivation_path: Option<String>,
    pub balance: u64,
}

fn copy_opt(o: &Option<String>) -> (r: Option<String>)
    ensures
        r == *o,
{
    match o {
        Some(s) => Some(s.clone()),
        None => None,
    }
}

impl Account for AccountRecord {
    fn address(&self) -> String {
        self.address.clone()
    }

    fn secret(&self) -> Option<String> {
        Some(self.secret.clone())
    }

    fn mnemonic(&self) -> Option<String> {
        copy_opt(&self.mnemonic)
    }

    fn derivation_path(&self) -> Option<String> {
        copy_opt(&self.derivation_path)
    }
}

/// The derivation path of account `index`: `m/44'/0'/0'/0/<index>` on the
/// confirmation-based chain, `m/44'/501'/<index>'/0'` on the faucet-based one.
pub open spec fn derivation_path_of(chain: ChainType, index: nat) -> Seq<char> {
    match chain {
        ChainType::Bitcoin => "m/44'/0'/0'/0/"@ + decimal_of(index),
        ChainType::Solana => "m/44'/501'/"@ + decimal_of(index) + "'/0'"@,
    }
}

/// The derivation path of account `index` of a chain.
pub fn derivation_path(chain: ChainType, index: u32) -> (r: String)
    ensures
        r@ == derivation_path_of(chain, index as nat),
{
    match chain {
        ChainType::Bitcoin => {
            let mut s = String::from_str("m/44'/0'/0'/0/");
            push_decimal(&mut s, index as u64);
            s
        },
        ChainType::Solana => {
            let mut s = String::from_str("m/44'/501'/");
            push_decimal(&mut s, index as u64);
            let s = s.concat("'/0'");
            proof {
                assert(s@ =~= derivation_path_of(chain, index as nat));
            }
            s
        },
    }
}

/// The accounts with every balance set to `target`, the goal a start sets
/// before funding.
pub fn with_target_balances(accounts: &mut Vec<AccountRecord>, target: u64)
    ensures
        final(accounts)@.len() == old(accounts)@.len(),
        forall|i: int|
            0 <= i < old(accounts)@.len() ==> #[trigger] final(accounts)@[i] == (AccountRecord {
                balance: target,
                ..old(accounts)@[i]
            }),
{
    let n = accounts.len();
    let mut i: usize = 0;
    while i < n
        invariant
            accounts@.len() == n,
            old(accounts)@.len() == n,
            i <= n,
            forall|k: int|
                0 <= k < i ==> #[trigger] accounts@[k] == (AccountRecord {
                    balance: target,
                    ..old(accounts)@[k]
                }),
            forall|k: int| i <= k < n ==> #[trigger] accounts@[k] == old(accounts)@[k],
        decreases n - i,
    {
        let a = &accounts[i];
        let updated = AccountRecord {
            address: a.address.clone(),
            secret: a.secret.clone(),
            mnemonic: copy_opt(&a.mnemonic),
            derivation_path: copy_opt(&a.derivation_path),
            balance: target,
        };
        accounts.set(i, updated);
        i = i + 1;
    }
}

/// The accounts with their balances replaced by `balances`, position by position.
pub fn apply_balances(accounts: &mut Vec<AccountRecord>, balances: &Vec<u64>)
    requires
        old(accounts)@.len() == balances@.len(),
    ensures
        final(accounts)@.len() == old(accounts)@.len(),
        forall|i: int|
            0 <= i < balances@.len() ==> #[trigger] final(accounts)@[i] == (AccountRecord {
                balance: balances@[i],
                ..old(accounts)@[i]
            }),
{
    let n = accounts.len();
    let mut i: usize = 0;
    while i < n
        invariant
            accounts@.len() == n,
            old(accounts)@.len() == n,
            balances@.len() == n,
            i <= n,
            forall|k: int|
                0 <= k < i ==> #[trigger] accounts@[k] == (AccountRecord {
                    balance: balances@[k],
                    ..old(accounts)@[k]
                }),
            forall|k: int| i <= k < n ==> #[trigger] accounts@[k] == old(accounts)@[k],
        decreases n - i,
    {
        let a = &accounts[i];
        let updated = AccountRecord {
            address: a.address.clone(),
            secret: a.secret.clone(),
            mnemonic: copy_opt(&a.mnemonic),
            derivation_path: copy_opt(&a.derivation_path),
            balance: balances[i],
        };
        accounts.set(i, updated);
        i = i + 1;
    }
}

} // verus!
