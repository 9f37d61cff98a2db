//! Bringing every generated account to its target balance.
//!
//! Amounts are whole base units of the chain (satoshis, lamports). The
//! coordinator decides what to request next and records what the backend
//! answered; the caller performs the requests.
use crate::error::ChainError;
use crate::text::{decimal, decimal_of};
use vstd::prelude::*;

verus! {

/// Confirmations a coinbase reward needs before it can be spent.
pub const MATURITY_DEPTH: u64 = 100;

/// Blocks between two halvings of the coinbase reward.
pub const HALVING_INTERVAL: u64 = 150;

/// The reward of the first coinbase, in satoshis.
pub const INITIAL_REWARD: u64 = 5_000_000_000;

/// Reserve for transaction fees per funded account, in satoshis.
pub const FEE_BUFFER: u64 = 100_000;

/// Number of coinbases after which the reward is certainly zero.
pub const MAX_COINBASE_BLOCKS: u64 = 4950;

/// Blocks mined to confirm the funding transactions.
pub const CONFIRMATION_BLOCKS: u64 = 6;

/// Attempts made per account against a faucet before it counts as failed.
pub const FAUCET_ATTEMPTS: u32 = 3;

/// The coinbase reward in era `e` (after `e` halvings).
pub open spec fn era_reward(e: nat) -> nat
    decreases e,
{
    if e == 0 {
        INITIAL_REWARD as nat
    } else {
        era_reward((e - 1) as nat) / 2
    }
}

/// The reward of the coinbase of block `b` (counting from zero).
pub open spec fn block_reward(b: nat) -> nat {
    era_reward(b / (HALVING_INTERVAL as nat))
}

/// The sum of the first `n` coinbase rewards.
pub open spec fn coinbase_total(n: nat) -> nat
    decreases n,
{
    if n == 0 {
        0
    } else {
        coinbase_total((n - 1) as nat) + block_reward((n - 1) as nat)
    }
}

/// What funding `count` accounts with `target` each needs, fees included.
pub open spec fn funding_need(count: nat, target: nat) -> nat {
    count * target + count * (FEE_BUFFER as nat)
}

/// Counting coinbases stops at `n`: their rewards cover `need`, or the
/// reward has run out.
pub open spec fn coinbase_stop(need: nat, n: nat) -> bool {
    coinbase_total(n) >= need || block_reward(n) == 0 || n >= MAX_COINBASE_BLOCKS
}

/// `n` is the least number of coinbases at which counting stops.
pub open spec fn first_coinbase_stop(need: nat, n: nat) -> bool {
    coinbase_stop(need, n) && forall|m: nat| m < n ==> !coinbase_stop(need, m)
}

proof fn lemma_total_bound(n: nat)
    ensures
        coinbase_total(n) <= n * (INITIAL_REWARD as nat),
        era_reward(n) <= INITIAL_REWARD as nat,
    decreases n,
{
    if n > 0 {
        lemma_total_bound((n - 1) as nat);
        lemma_era_bound(((n - 1) as nat) / (HALVING_INTERVAL as nat));
        assert(coinbase_total(n) <= n * (INITIAL_REWARD as nat)) by (nonlinear_arith)
            requires
                coinbase_total(n) == coinbase_total((n - 1) as nat) + block_reward((n - 1) as nat),
                coinbase_total((n - 1) as nat) <= (n - 1) * (INITIAL_REWARD as nat),
                block_reward((n - 1) as nat) <= INITIAL_REWARD as nat,
                n > 0,
        ;
    }
    lemma_era_bound(n);
}

proof fn lemma_era_bound(e: nat)
    ensures
        era_reward(e) <= INITIAL_REWARD as nat,
    decreases e,
{
    if e > 0 {
        lemma_era_bound((e - 1) as nat);
    }
}

/// How many blocks to mine before funding: enough coinbases to cover what
/// `count` accounts at `target` each need with fees (at least one), plus the
/// maturity depth so that the earliest of them can be spent.
pub fn blocks_to_mine(count: u64, target: u64) -> (r: u64)
    requires
        funding_need(count as nat, target as nat) <= u64::MAX,
    ensures
        exists|n: nat|
            first_coinbase_stop(funding_need(count as nat, target as nat), n) && r == MATURITY_DEPTH
                + (if n == 0 {
                1
            } else {
                n
            }),
{
    proof {
        assert(count * target + count * FEE_BUFFER <= u64::MAX);
        assert(count * target <= u64::MAX) by (nonlinear_arith)
            requires
                count * target + count * FEE_BUFFER <= u64::MAX,
                count * FEE_BUFFER >= 0,
        ;
        assert(count * FEE_BUFFER <= u64::MAX) by (nonlinear_arith)
            requires
                count * target + count * FEE_BUFFER <= u64::MAX,
                count * target >= 0,
        ;
    }
    let need: u64 = count * target + count * FEE_BUFFER;
    let ghost needn = funding_need(count as nat, target as nat);
    let mut accumulated: u64 = 0;
    let mut blocks: u64 = 0;
    let mut reward: u64 = INITIAL_REWARD;
    let mut in_era: u64 = 0;
    while accumulated < need && reward > 0 && blocks < MAX_COINBASE_BLOCKS
        invariant
            need as nat == needn,
            blocks <= MAX_COINBASE_BLOCKS,
            accumulated as nat == coinbase_total(blocks as nat),
            reward as nat == block_reward(blocks as nat),
            in_era == blocks % HALVING_INTERVAL,
            forall|m: nat| m < blocks ==> !coinbase_stop(needn, m),
        decreases MAX_COINBASE_BLOCKS - blocks,
    {
        proof {
            lemma_total_bound(blocks as nat + 1);
            assert((blocks as nat + 1) * (INITIAL_REWARD as nat) <= u64::MAX) by (nonlinear_arith)
                requires
                    blocks < MAX_COINBASE_BLOCKS,
            ;
        }
        accumulated = accumulated + reward;
        blocks = blocks + 1;
        in_era = in_era + 1;
        if in_era == HALVING_INTERVAL {
            in_era = 0;
            reward = reward / 2;
            proof {
                assert(blocks as int / 150 == (blocks as int - 1) / 150 + 1);
            }
        } else {
            proof {
                assert(blocks as int / 150 == (blocks as int - 1) / 150);
            }
        }
        proof {
            assert forall|m: nat| m < blocks implies !coinbase_stop(needn, m) by {
                if m < blocks - 1 {
                }
            }
        }
    }
    proof {
        assert(first_coinbase_stop(needn, blocks as nat));
    }
    if blocks == 0 {
        MATURITY_DEPTH + 1
    } else {
        MATURITY_DEPTH + blocks
    }
}

/// What must be added to bring `current` up to `target`; nothing when the
/// balance already suffices (a faucet can only add, and neither backend
/// takes funds away).
pub fn top_up_amount(current: u64, target: u64) -> (r: Option<u64>)
    ensures
        current >= target ==> r is None,
        current < target ==> r == Some((target - current) as u64),
{
    if current >= target {
        None
    } else {
        Some(target - current)
    }
}

/// The text of the error for a wallet that cannot fund every account.
pub open spec fn shortfall_message(balance: nat, need: nat) -> Seq<char> {
    "Insufficient wallet balance: "@ + decimal_of(balance) + " sats available, "@ + decimal_of(need)
        + " sats needed (including tx fees)"@
}

/// Whether a wallet holding `balance` covers `need`; the error names both.
pub fn check_wallet(balance: u64, need: u64) -> (r: Result<(), ChainError>)
    ensures
        r is Ok <==> balance >= need,
        r is Err ==> r == Err::<(), ChainError>(ChainError::Other(r->Err_0->Other_0))
            && r->Err_0->Other_0@ == shortfall_message(balance as nat, need as nat),
{
    if balance >= need {
        return Ok(());
    }
    let b = decimal(balance);
    let n = decimal(need);
    let m = String::from_str("Insufficient wallet balance: ").concat(b.as_str()).concat(
        " sats available, ",
    ).concat(n.as_str()).concat(" sats needed (including tx fees)");
    proof {
        assert(m@ =~= shortfall_message(balance as nat, need as nat));
    }
    Err(ChainError::Other(m))
}

/// Fee allowance per input of a spend from one address, in satoshis.
pub const FEE_PER_INPUT: u64 = 2_500;

/// Change at or below this many satoshis is left to the fee.
pub const DUST_LIMIT: u64 = 1_000;

/// The sum of a list of amounts.
pub open spec fn amount_sum(s: Seq<u64>) -> nat
    decreases s.len(),
{
    if s.len() == 0 {
        0
    } else {
        amount_sum(s.drop_last()) + s.last() as nat
    }
}

/// The fee allowed for a spend from an address holding `n` outputs.
pub open spec fn spend_fee(n: nat) -> nat {
    FEE_PER_INPUT as nat * (if n == 0 {
        1
    } else {
        n
    })
}

/// `k` is the least number of leading outputs, at least one, whose amounts
/// cover `need`.
pub open spec fn covering_inputs(s: Seq<u64>, need: nat, k: nat) -> bool {
    &&& 1 <= k <= s.len()
    &&& amount_sum(s.take(k as int)) >= need
    &&& forall|j: nat| 1 <= j < k ==> amount_sum(#[trigger] s.take(j as int)) < need
}

/// How a payment from one address is made.
#[derive(Debug, Clone, Copy, PartialEq, Eq, Structural)]
pub struct SpendPlan {
    /// How many of the address's outputs, from the first, are spent.
    pub inputs: usize,
    /// The fee allowed.
    pub fee: u64,
    /// What goes back to the address; zero when it is dust.
    pub change: u64,
}

proof fn lemma_sum_prefix_bound(s: Seq<u64>, k: int)
    requires
        0 <= k <= s.len(),
    ensures
        amount_sum(s.take(k)) <= amount_sum(s),
    decreases s.len(),
{
    if k < s.len() {
        lemma_sum_prefix_bound(s.drop_last(), k);
        assert(s.drop_last().take(k) =~= s.take(k));
    } else {
        assert(s.take(k) =~= s);
    }
}

/// The plan of paying `amount` from an address whose spendable outputs hold
/// `outputs`: the fee allows for every output, outputs are taken in order
/// until they cover amount and fee, and change beyond dust goes back. An
/// address with no outputs, or too little, cannot pay.
pub fn plan_spend(outputs: &Vec<u64>, amount: u64) -> (r: Result<SpendPlan, ChainError>)
    requires
        amount_sum(outputs@) <= u64::MAX,
        amount + spend_fee(outputs@.len() as nat) <= u64::MAX,
    ensures
        r is Ok <==> outputs@.len() > 0 && amount_sum(outputs@) >= amount + spend_fee(
            outputs@.len() as nat,
        ),
        r is Err ==> r->Err_0 is Rpc,
        r is Ok ==> {
            let p = r->Ok_0;
            let need = (amount + spend_fee(outputs@.len() as nat)) as nat;
            let covered = amount_sum(outputs@.take(p.inputs as int));
            &&& p.fee == spend_fee(outputs@.len() as nat)
            &&& covering_inputs(outputs@, need, p.inputs as nat)
            &&& p.change == (if covered - need > DUST_LIMIT {
                covered - need
            } else {
                0
            })
        },
{
    let n = outputs.len();
    if n == 0 {
        return Err(ChainError::Rpc(String::from_str("No spendable outputs for the address")));
    }
    proof {
        assert(FEE_PER_INPUT * n <= u64::MAX) by (nonlinear_arith)
            requires
                amount + FEE_PER_INPUT * n <= u64::MAX,
        ;
    }
    let fee = FEE_PER_INPUT * (n as u64);
    let need = amount + fee;
    let mut total: u64 = 0;
    let mut i: usize = 0;
    proof {
        assert(outputs@.take(0) =~= Seq::<u64>::empty());
    }
    while i < n
        invariant
            n == outputs@.len(),
            amount_sum(outputs@) <= u64::MAX,
            i <= n,
            total == amount_sum(outputs@.take(i as int)),
        decreases n - i,
    {
        proof {
            assert(outputs@.take(i + 1).drop_last() =~= outputs@.take(i as int));
            lemma_sum_prefix_bound(outputs@, i + 1);
        }
        total = total + outputs[i];
        i = i + 1;
    }
    proof {
        assert(outputs@.take(n as int) =~= outputs@);
    }
    if total < need {
        return Err(ChainError::Rpc(String::from_str("Insufficient funds at the address for amount and fee")));
    }
    let mut selected: u64 = 0;
    let mut k: usize = 0;
    while k < n && (k == 0 || selected < need)
        invariant
            n == outputs@.len(),
            amount_sum(outputs@) <= u64::MAX,
            amount_sum(outputs@) >= need,
            k <= n,
            selected == amount_sum(outputs@.take(k as int)),
            forall|j: nat| 1 <= j < k ==> amount_sum(#[trigger] outputs@.take(j as int)) < need,
        decreases n - k,
    {
        proof {
            assert(outputs@.take(k + 1).drop_last() =~= outputs@.take(k as int));
            lemma_sum_prefix_bound(outputs@, k + 1);
        }
        selected = selected + outputs[k];
        k = k + 1;
    }
    proof {
        if selected < need {
            assert(k == n);
            assert(outputs@.take(n as int) =~= outputs@);
        }
    }
    let over = selected - need;
    let change = if over > DUST_LIMIT {
        over
    } else {
        0
    };
    Ok(SpendPlan { inputs: k, fee, change })
}

/// One account whose funding failed, with the cause the backend gave.
#[derive(Debug, Clone)]
pub struct FundingFailure {
    pub index: usize,
    pub cause: String,
}

/// What the coordinator asks for next.
#[derive(Debug, Clone, Copy, PartialEq, Eq, Structural)]
pub enum FundingStep {
    /// Bring account `index` to `target`.
    Fund { index: usize, target: u64 },
    /// Every account has been dealt with.
    Done,
}

/// What the backend answered to a funding request.
pub enum FundingOutcome {
    Funded,
    Failed(String),
}

/// The failures as (account index, cause) pairs.
pub open spec fn failure_views(fs: Seq<FundingFailure>) -> Seq<(nat, Seq<char>)> {
    fs.map_values(|f: FundingFailure| (f.index as nat, f.cause@))
}

/// The listing of one failure.
pub open spec fn failure_item(f: (nat, Seq<char>)) -> Seq<char> {
    "account "@ + decimal_of(f.0) + ": "@ + f.1
}

/// The listing of all failures, separated by semicolons.
pub open spec fn failure_items(fs: Seq<(nat, Seq<char>)>) -> Seq<char>
    decreases fs.len(),
{
    if fs.len() == 0 {
        Seq::empty()
    } else if fs.len() == 1 {
        failure_item(fs[0])
    } else {
        failure_items(fs.drop_last()) + "; "@ + failure_item(fs.last())
    }
}

/// The text of the aggregated funding error.
pub open spec fn funding_error_message(fs: Seq<(nat, Seq<char>)>) -> Seq<char> {
    "Failed to fund "@ + decimal_of(fs.len()) + " account(s): "@ + failure_items(fs)
}

/// Whether account `i` is among the failures.
pub open spec fn is_failed(fs: Seq<(nat, Seq<char>)>, i: nat) -> bool {
    exists|j: int| 0 <= j < fs.len() && (#[trigger] fs[j]).0 == i
}

/// Drives one funding pass over a list of accounts.
pub struct FundingCoordinator {
    target: u64,
    max_attempts: u32,
    balances: Vec<u64>,
    next: usize,
    attempts_left: u32,
    failures: Vec<FundingFailure>,
}

impl FundingCoordinator {
    /// The cached balances.
    pub closed spec fn balances(&self) -> Seq<u64> {
        self.balances@
    }

    /// The balance every account should reach.
    pub closed spec fn target(&self) -> u64 {
        self.target
    }

    /// The account being dealt with; the account count once all are.
    pub closed spec fn next_index(&self) -> nat {
        self.next as nat
    }

    /// Attempts left for the current account.
    pub closed spec fn attempts_left(&self) -> nat {
        self.attempts_left as nat
    }

    /// Attempts made per account.
    pub closed spec fn max_attempts(&self) -> nat {
        self.max_attempts as nat
    }

    /// The failures recorded so far, in account order.
    pub closed spec fn failures(&self) -> Seq<(nat, Seq<char>)> {
        failure_views(self.failures@)
    }

    /// All accounts have been dealt with.
    pub open spec fn done(&self) -> bool {
        self.next_index() == self.balances().len()
    }

    /// Every account dealt with holds the target, or zero if it failed;
    /// failures are listed once each, in account order.
    pub closed spec fn wf(&self) -> bool {
        &&& 1 <= self.attempts_left <= self.max_attempts
        &&& self.next <= self.balances@.len()
        &&& forall|i: int|
            0 <= i < self.next ==> #[trigger] self.balances@[i] == (if is_failed(
                self.failures(),
                i as nat,
            ) {
                0
            } else {
                self.target
            })
        &&& forall|j: int|
            0 <= j < self.failures@.len() ==> (#[trigger] self.failures@[j]).index < self.next
        &&& forall|a: int, b: int|
            0 <= a < b < self.failures@.len() ==> #[trigger] self.failures@[a].index
                < #[trigger] self.failures@[b].index
    }

    /// A pass over accounts whose cached balances are `balances`, making up
    /// to `max_attempts` attempts per account. Where the target is zero
    /// nothing is requested: every account is at its target, zero.
    pub fn new(balances: Vec<u64>, target: u64, max_attempts: u32) -> (r: FundingCoordinator)
        requires
            max_attempts >= 1,
        ensures
            r.wf(),
            r.target() == target,
            r.max_attempts() == max_attempts,
            r.attempts_left() == max_attempts,
            r.failures().len() == 0,
            r.balances().len() == balances@.len(),
            target != 0 ==> r.balances() == balances@ && r.next_index() == 0,
            target == 0 ==> r.done() && forall|i: int| 0 <= i < balances@.len() ==> #[trigger] r.balances()[i] == 0,
    {
        let n = balances.len();
        let mut balances = balances;
        if target == 0 {
            let mut i: usize = 0;
            while i < n
                invariant
                    balances@.len() == n,
                    i <= n,
                    forall|k: int| 0 <= k < i ==> #[trigger] balances@[k] == 0,
                decreases n - i,
            {
                balances.set(i, 0);
                i = i + 1;
            }
        }
        let r = FundingCoordinator {
            target,
            max_attempts,
            balances,
            next: if target == 0 {
                n
            } else {
                0
            },
            attempts_left: max_attempts,
            failures: Vec::new(),
        };
        proof {
            assert(r.failures() =~= Seq::<(nat, Seq<char>)>::empty());
        }
        r
    }

    /// What to request next.
    pub fn next_step(&self) -> (r: FundingStep)
        requires
            self.wf(),
        ensures
            self.done() ==> r == FundingStep::Done,
            !self.done() ==> r == (FundingStep::Fund {
                index: self.next_index() as usize,
                target: self.target(),
            }),
    {
        if self.next < self.balances.len() {
            FundingStep::Fund { index: self.next, target: self.target }
        } else {
            FundingStep::Done
        }
    }

    /// Record the backend's answer for the current account. A success sets
    /// its balance to the target; a failure is retried while attempts are
    /// left, and after the last one the account is recorded as failed with
    /// balance zero. Either way the pass then moves to the next account.
    pub fn record(&mut self, outcome: FundingOutcome)
        requires
            old(self).wf(),
            !old(self).done(),
        ensures
            records(*old(self), outcome, *final(self)),
    {
        let i = self.next;
        let n = self.balances.len();
        assert(i < n);
        let ghost old_f = self.failures();
        match outcome {
            FundingOutcome::Funded => {
                self.balances.set(i, self.target);
                self.next = i + 1;
                self.attempts_left = self.max_attempts;
                proof {
                    assert(!is_failed(old_f, i as nat));
                    assert forall|k: int| 0 <= k < self.next implies #[trigger] self.balances@[k] == (
                    if is_failed(self.failures(), k as nat) {
                        0
                    } else {
                        self.target
                    }) by {
                        if k < i {
                        }
                    }
                }
            },
            FundingOutcome::Failed(cause) => {
                if self.attempts_left > 1 {
                    self.attempts_left = self.attempts_left - 1;
                } else {
                    let ghost cv = cause@;
                    self.balances.set(i, 0);
                    self.failures.push(FundingFailure { index: i, cause });
                    self.next = i + 1;
                    self.attempts_left = self.max_attempts;
                    proof {
                        assert(self.failures() =~= old_f.push((i as nat, cv)));
                        assert(is_failed(self.failures(), i as nat)) by {
                            assert(self.failures()[old_f.len() as int].0 == i as nat);
                        }
                        assert forall|k: int| 0 <= k < i implies #[trigger] is_failed(self.failures(), k as nat)
                            == is_failed(old_f, k as nat) by {
                            if is_failed(self.failures(), k as nat) {
                                let j = choose|j: int|
                                    0 <= j < self.failures().len() && (#[trigger] self.failures()[j]).0
                                        == k as nat;
                                if j < old_f.len() {
                                    assert(old_f[j].0 == k as nat);
                                }
                            }
                            if is_failed(old_f, k as nat) {
                                let j = choose|j: int|
                                    0 <= j < old_f.len() && (#[trigger] old_f[j]).0 == k as nat;
                                assert(self.failures()[j].0 == k as nat);
                            }
                        }
                    }
                }
            },
        }
    }

    /// Whether every account has been dealt with.
    pub fn is_done(&self) -> (r: bool)
        ensures
            r == self.done(),
    {
        self.next == self.balances.len()
    }

    /// The cached balance of account `i`.
    pub fn balance(&self, i: usize) -> (r: u64)
        requires
            i < self.balances().len(),
        ensures
            r == self.balances()[i as int],
    {
        self.balances[i]
    }

    /// The indices of the accounts that failed, in order.
    pub fn failed_accounts(&self) -> (r: Vec<usize>)
        ensures
            r@.len() == self.failures().len(),
            forall|j: int| 0 <= j < r@.len() ==> r@[j] as nat == #[trigger] self.failures()[j].0,
    {
        let mut r: Vec<usize> = Vec::new();
        let mut j: usize = 0;
        while j < self.failures.len()
            invariant
                j <= self.failures@.len(),
                r@.len() == j,
                forall|k: int| 0 <= k < j ==> r@[k] as nat == #[trigger] self.failures()[k].0,
            decreases self.failures@.len() - j,
        {
            r.push(self.failures[j].index);
            j = j + 1;
        }
        r
    }

    /// The outcome of the pass: success when no account failed, otherwise one
    /// error that lists every failed account with its cause.
    pub fn finish(&self) -> (r: Result<(), ChainError>)
        requires
            self.done(),
        ensures
            r is Ok <==> self.failures().len() == 0,
            r is Err ==> r == Err::<(), ChainError>(
                ChainError::Rpc(r->Err_0->Rpc_0),
            ) && r->Err_0->Rpc_0@ == funding_error_message(self.failures()),
    {
        if self.failures.len() == 0 {
            return Ok(());
        }
        let ghost fs = self.failures();
        let mut items = String::new();
        let mut j: usize = 0;
        proof {
            assert(fs.take(0) =~= Seq::<(nat, Seq<char>)>::empty());
        }
        while j < self.failures.len()
            invariant
                fs == self.failures(),
                j <= self.failures@.len(),
                items@ == failure_items(fs.take(j as int)),
            decreases self.failures@.len() - j,
        {
            let f = &self.failures[j];
            if j > 0 {
                items.append("; ");
            }
            items.append("account ");
            let d = decimal(f.index as u64);
            items.append(d.as_str());
            items.append(": ");
            items.append(f.cause.as_str());
            proof {
                let t = fs.take(j + 1);
                assert(t.drop_last() =~= fs.take(j as int));
                assert(t.last() == fs[j as int]);
                if j == 0 {
                    assert(t.len() == 1);
                }
                assert(items@ =~= failure_items(t));
            }
            j = j + 1;
        }
        proof {
            assert(fs.take(self.failures@.len() as int) =~= fs);
        }
        let msg = String::from_str("Failed to fund ");
        let n = decimal(self.failures.len() as u64);
        let msg = msg.concat(n.as_str()).concat(" account(s): ").concat(items.as_str());
        proof {
            assert(msg@ =~= funding_error_message(fs));
        }
        Err(ChainError::Rpc(msg))
    }
}

/// `after` is `before` with `outcome` recorded for the current account: a
/// success sets its balance to the target; a failure with attempts left
/// spends one attempt; the last failed attempt zeroes the balance and lists
/// the account with its cause. Either of the two last moves on to the next
/// account with all attempts restored.
pub open spec fn records(before: FundingCoordinator, outcome: FundingOutcome, after: FundingCoordinator) -> bool {
    let i = before.next_index() as int;
    &&& after.wf()
    &&& after.target() == before.target()
    &&& after.max_attempts() == before.max_attempts()
    &&& after.balances().len() == before.balances().len()
    &&& match outcome {
        FundingOutcome::Funded => {
            &&& after.balances() == before.balances().update(i, before.target())
            &&& after.next_index() == i + 1
            &&& after.attempts_left() == before.max_attempts()
            &&& after.failures() == before.failures()
        },
        FundingOutcome::Failed(cause) => if before.attempts_left() > 1 {
            &&& after.balances() == before.balances()
            &&& after.next_index() == i
            &&& after.attempts_left() == before.attempts_left() - 1
            &&& after.failures() == before.failures()
        } else {
            &&& after.balances() == before.balances().update(i, 0)
            &&& after.next_index() == i + 1
            &&& after.attempts_left() == before.max_attempts()
            &&& after.failures() == before.failures().push((i as nat, cause@))
        },
    }
}

/// With every account dealt with, each holds the target unless it failed,
/// in which case it holds zero; the failures name each failed account once;
/// and when none failed (the pass succeeds), every account holds the target.
pub proof fn lemma_funding_outcome(c: FundingCoordinator)
    requires
        c.wf(),
        c.done(),
    ensures
        forall|i: int|
            0 <= i < c.balances().len() ==> #[trigger] c.balances()[i] == (if is_failed(
                c.failures(),
                i as nat,
            ) {
                0
            } else {
                c.target()
            }),
        forall|a: int, b: int|
            0 <= a < b < c.failures().len() ==> #[trigger] c.failures()[a].0 < #[trigger] c.failures()[b].0,
        c.failures().len() == 0 ==> forall|i: int|
            0 <= i < c.balances().len() ==> #[trigger] c.balances()[i] == c.target(),
{
}

/// The failures a pass with one attempt per account lists when account `i`
/// gets the report `outcomes[i]`.
pub open spec fn failed_accounts_of(outcomes: Seq<FundingOutcome>) -> Seq<(nat, Seq<char>)>
    decreases outcomes.len(),
{
    if outcomes.len() == 0 {
        Seq::empty()
    } else {
        let r = failed_accounts_of(outcomes.drop_last());
        match outcomes.last() {
            FundingOutcome::Funded => r,
            FundingOutcome::Failed(cause) => r.push(((outcomes.len() - 1) as nat, cause@)),
        }
    }
}

proof fn lemma_single_attempt_prefix(
    states: Seq<FundingCoordinator>,
    outcomes: Seq<FundingOutcome>,
    k: int,
)
    requires
        states.len() == outcomes.len() + 1,
        outcomes.len() == states[0].balances().len(),
        states[0].wf(),
        states[0].max_attempts() == 1,
        states[0].attempts_left() == 1,
        states[0].next_index() == 0,
        states[0].failures().len() == 0,
        forall|j: int| 0 <= j < outcomes.len() ==> records(#[trigger] states[j], outcomes[j], states[j + 1]),
        0 <= k <= outcomes.len(),
    ensures
        states[k].next_index() == k,
        states[k].attempts_left() == 1,
        states[k].max_attempts() == 1,
        states[k].target() == states[0].target(),
        states[k].balances().len() == outcomes.len(),
        states[k].failures() == failed_accounts_of(outcomes.take(k)),
        forall|i: int|
            0 <= i < k ==> #[trigger] states[k].balances()[i] == (if outcomes[i] is Funded {
                states[0].target()
            } else {
                0
            }),
        forall|i: int| k <= i < outcomes.len() ==> #[trigger] states[k].balances()[i] == states[0].balances()[i],
    decreases k,
{
    if k == 0 {
        assert(outcomes.take(0) =~= Seq::<FundingOutcome>::empty());
    } else {
        lemma_single_attempt_prefix(states, outcomes, k - 1);
        assert(records(states[k - 1], outcomes[k - 1], states[k]));
        assert(outcomes.take(k).drop_last() =~= outcomes.take(k - 1));
        assert(outcomes.take(k).last() == outcomes[k - 1]);
    }
}

/// A pass with one attempt per account over
/// accounts whose reports are `outcomes` (the backend fails exactly the
/// accounts reported `Failed`): it deals with every account, lists exactly
/// the failed ones in order with their causes, and leaves each of them at
/// zero and every other account at the target. `finish` then fails with the
/// error that lists these, and succeeds when there are none.
pub proof fn lemma_single_attempt_pass(states: Seq<FundingCoordinator>, outcomes: Seq<FundingOutcome>)
    requires
        states.len() == outcomes.len() + 1,
        outcomes.len() == states[0].balances().len(),
        states[0].wf(),
        states[0].max_attempts() == 1,
        states[0].attempts_left() == 1,
        states[0].next_index() == 0,
        states[0].failures().len() == 0,
        forall|j: int| 0 <= j < outcomes.len() ==> records(#[trigger] states[j], outcomes[j], states[j + 1]),
    ensures
        states.last().done(),
        states.last().failures() == failed_accounts_of(outcomes),
        forall|i: int|
            0 <= i < outcomes.len() ==> #[trigger] states.last().balances()[i] == (if outcomes[i] is Funded {
                states[0].target()
            } else {
                0
            }),
{
    let n = outcomes.len() as int;
    lemma_single_attempt_prefix(states, outcomes, n);
    assert(outcomes.take(n) =~= outcomes);
    assert(states.last() == states[n]);
}

/// Overwrite each cached balance with the one the backend reported, where
/// it reported one.
pub fn refresh_balances(balances: &mut Vec<u64>, observed: &Vec<Option<u64>>)
    requires
        old(balances)@.len() == observed@.len(),
    ensures
        final(balances)@.len() == old(balances)@.len(),
        forall|i: int|
            0 <= i < observed@.len() ==> #[trigger] final(balances)@[i] == match observed@[i] {
                Some(b) => b,
                None => old(balances)@[i],
            },
{
    let mut i: usize = 0;
    while i < observed.len()
        invariant
            balances@.len() == observed@.len(),
            old(balances)@.len() == observed@.len(),
            i <= observed@.len(),
            forall|k: int|
                0 <= k < i ==> #[trigger] balances@[k] == match observed@[k] {
                    Some(b) => b,
                    None => old(balances)@[k],
                },
            forall|k: int| i <= k < observed@.len() ==> #[trigger] balances@[k] == old(balances)@[k],
        decreases observed@.len() - i,
    {
        match observed[i] {
            Some(b) => {
                balances.set(i, b);
            },
            None => {},
        }
        i = i + 1;
    }
}

} // verus!
