//! What the process supervisor launches, and how it reads a failed start.
use crate::chain::ChainType;
use crate::error::ChainError;
use crate::instance::{InstanceConfig, FAUCET_PORT_OFFSET, DYNAMIC_RANGE_WIDTH};
use crate::paths::{instance_dir_of, join, join_of};
use crate::text::{decimal, decimal_of, str_eq};
use vstd::prelude::*;

verus! {

/// A program and its arguments.
#[derive(Debug, Clone)]
pub struct DaemonCommand {
    pub program: String,
    pub args: Vec<String>,
}

/// The directory the daemon keeps its chain data in, inside the instance directory.
pub open spec fn backend_data_dir_of(root: Seq<char>, chain: ChainType, id: Seq<char>) -> Seq<char> {
    join_of(
        instance_dir_of(root, chain, id),
        match chain {
            ChainType::Bitcoin => "regtest-data"@,
            ChainType::Solana => "test-ledger"@,
        },
    )
}

/// The arguments that launch the daemon of `c`; `None` where the validator's
/// ports would leave the port range.
pub open spec fn daemon_args_of(c: InstanceConfig) -> Option<Seq<Seq<char>>> {
    let data = backend_data_dir_of(c.data_root@, c.chain, c.instance_id@);
    match c.chain {
        ChainType::Bitcoin => Some(
            seq![
                "-regtest"@,
                "-rpcport="@ + decimal_of(c.rpc_port as nat),
                "-port="@ + decimal_of(c.p2p_port as nat),
                "-datadir="@ + data,
                "-rpcuser="@ + c.rpc_user@,
                "-rpcpassword="@ + c.rpc_password@,
                "-server=1"@,
                "-txindex=1"@,
                "-fallbackfee=0.0001"@,
                "-daemon=0"@,
                if c.verbose {
                    "-printtoconsole=1"@
                } else {
                    "-printtoconsole=0"@
                },
            ],
        ),
        ChainType::Solana => if c.rpc_port as int + 1002 + 2 + 500 <= u16::MAX {
            let faucet = c.rpc_port as nat + 1002;
            Some(
                seq![
                    "--rpc-port"@,
                    decimal_of(c.rpc_port as nat),
                    "--faucet-port"@,
                    decimal_of(faucet),
                    "--gossip-port"@,
                    decimal_of(faucet + 1),
                    "--dynamic-port-range"@,
                    decimal_of(faucet + 2) + "-"@ + decimal_of(faucet + 2 + 500),
                    "--ledger"@,
                    data,
                    "--reset"@,
                ],
            )
        } else {
            None
        },
    }
}

/// The daemon's program name.
pub open spec fn daemon_program_of(chain: ChainType) -> Seq<char> {
    match chain {
        ChainType::Bitcoin => "bitcoind"@,
        ChainType::Solana => "solana-test-validator"@,
    }
}

/// The views of a list of strings.
pub open spec fn string_views(v: Seq<String>) -> Seq<Seq<char>> {
    v.map_values(|s: String| s@)
}

fn prefixed(p: &str, n: u64) -> (r: String)
    ensures
        r@ == p@ + decimal_of(n as nat),
{
    let d = decimal(n);
    String::from_str(p).concat(d.as_str())
}

fn prefixed_str(p: &str, s: &str) -> (r: String)
    ensures
        r@ == p@ + s@,
{
    String::from_str(p).concat(s)
}

impl InstanceConfig {
    /// The directory the daemon keeps its chain data in.
    pub fn backend_data_dir(&self) -> (r: String)
        ensures
            r@ == backend_data_dir_of(self.data_root@, self.chain, self.instance_id@),
    {
        let d = self.instance_dir();
        match self.chain {
            ChainType::Bitcoin => join(d.as_str(), "regtest-data"),
            ChainType::Solana => join(d.as_str(), "test-ledger"),
        }
    }

    /// The command that launches this instance's daemon.
    pub fn daemon_command(&self) -> (r: Result<DaemonCommand, ChainError>)
        ensures
            daemon_args_of(*self) is Some <==> r is Ok,
            r is Ok ==> r->Ok_0.program@ == daemon_program_of(self.chain) && string_views(
                r->Ok_0.args@,
            ) == daemon_args_of(*self)->Some_0,
            r is Err ==> r->Err_0 is Config,
    {
        let data = self.backend_data_dir();
        let mut args: Vec<String> = Vec::new();
        match self.chain {
            ChainType::Bitcoin => {
                args.push(String::from_str("-regtest"));
                args.push(prefixed("-rpcport=", self.rpc_port as u64));
                args.push(prefixed("-port=", self.p2p_port as u64));
                args.push(prefixed_str("-datadir=", data.as_str()));
                args.push(prefixed_str("-rpcuser=", self.rpc_user.as_str()));
                args.push(prefixed_str("-rpcpassword=", self.rpc_password.as_str()));
                args.push(String::from_str("-server=1"));
                args.push(String::from_str("-txindex=1"));
                args.push(String::from_str("-fallbackfee=0.0001"));
                args.push(String::from_str("-daemon=0"));
                if self.verbose {
                    args.push(String::from_str("-printtoconsole=1"));
                } else {
                    args.push(String::from_str("-printtoconsole=0"));
                }
                proof {
                    assert(string_views(args@) =~= daemon_args_of(*self)->Some_0);
                }
                Ok(DaemonCommand { program: String::from_str("bitcoind"), args })
            },
            ChainType::Solana => {
                if self.rpc_port > 65535 - 1504 {
                    return Err(
                        ChainError::Config(
                            String::from_str("RPC port leaves no room for the validator's other ports"),
                        ),
                    );
                }
                let faucet = self.rpc_port + FAUCET_PORT_OFFSET;
                let base = faucet + 2;
                args.push(String::from_str("--rpc-port"));
                args.push(decimal(self.rpc_port as u64));
                args.push(String::from_str("--faucet-port"));
                args.push(decimal(faucet as u64));
                args.push(String::from_str("--gossip-port"));
                args.push(decimal((faucet + 1) as u64));
                args.push(String::from_str("--dynamic-port-range"));
                let range = decimal(base as u64).concat("-");
                let end = decimal((base + DYNAMIC_RANGE_WIDTH) as u64);
                args.push(range.concat(end.as_str()));
                args.push(String::from_str("--ledger"));
                args.push(data);
                args.push(String::from_str("--reset"));
                proof {
                    assert(string_views(args@) =~= daemon_args_of(*self)->Some_0);
                }
                Ok(DaemonCommand { program: String::from_str("solana-test-validator"), args })
            },
        }
    }
}

/// `pat` occurs in `s`.
pub open spec fn contains_seq(s: Seq<char>, pat: Seq<char>) -> bool {
    exists|i: int| 0 <= i && i + pat.len() <= s.len() && #[trigger] s.subrange(i, i + pat.len()) == pat
}

/// Whether `pat` occurs in `s`.
pub fn contains_str(s: &str, pat: &str) -> (r: bool)
    ensures
        r == contains_seq(s@, pat@),
{
    let n = s.unicode_len();
    let m = pat.unicode_len();
    if m > n {
        proof {
            assert forall|i: int| 0 <= i && i + pat@.len() <= s@.len() implies #[trigger] s@.subrange(
                i,
                i + pat@.len(),
            ) != pat@ by {}
        }
        return false;
    }
    if m == 0 {
        proof {
            assert(s@.subrange(0int, 0int + pat@.len()) =~= pat@);
        }
        return true;
    }
    let mut i: usize = 0;
    while i <= n - m
        invariant
            n == s@.len(),
            m == pat@.len(),
            1 <= m <= n,
            i <= n - m + 1,
            forall|k: int| 0 <= k < i ==> #[trigger] s@.subrange(k, k + m) != pat@,
        decreases n - m + 1 - i,
    {
        let piece = s.substring_char(i, i + m);
        if str_eq(piece, pat) {
            return true;
        }
        i = i + 1;
    }
    proof {
        assert forall|k: int| 0 <= k && k + pat@.len() <= s@.len() implies #[trigger] s@.subrange(
            k,
            k + pat@.len(),
        ) != pat@ by {
            assert(k < i);
        }
    }
    false
}

/// Whether a daemon log line reports the cause of a failed start: a panic,
/// or an error that is not about metrics.
pub open spec fn is_failure_line(line: Seq<char>) -> bool {
    contains_seq(line, "panicked at"@) || (contains_seq(line, "ERROR"@) && !contains_seq(
        line,
        "metrics"@,
    ))
}

/// Whether a log line reports the cause of a failed start.
pub fn failure_line(line: &str) -> (r: bool)
    ensures
        r == is_failure_line(line@),
{
    contains_str(line, "panicked at") || (contains_str(line, "ERROR") && !contains_str(line, "metrics"))
}

/// The lines of a log that report the cause of a failed start, joined by
/// newlines.
pub open spec fn failure_detail_of(lines: Seq<Seq<char>>) -> Seq<char>
    decreases lines.len(),
{
    if lines.len() == 0 {
        Seq::empty()
    } else {
        let r = failure_detail_of(lines.drop_last());
        if !is_failure_line(lines.last()) {
            r
        } else if !has_failure_line(lines.drop_last()) {
            lines.last()
        } else {
            r + "\n"@ + lines.last()
        }
    }
}

/// Some line of `lines` reports the cause of a failed start.
pub open spec fn has_failure_line(lines: Seq<Seq<char>>) -> bool {
    exists|i: int| 0 <= i < lines.len() && is_failure_line(#[trigger] lines[i])
}

/// The error for a daemon that exited during the grace period: the log
/// lines that give the cause where there are any, else the exit status and
/// where the log is.
pub fn early_exit_error(log_lines: &Vec<String>, exit_status: &str, log_path: &str) -> (r: ChainError)
    ensures
        r is NodeManagement,
        has_failure_line(string_views(log_lines@)) ==> r->NodeManagement_0@ == "Daemon failed to start: "@
            + failure_detail_of(string_views(log_lines@)),
        !has_failure_line(string_views(log_lines@)) ==> r->NodeManagement_0@
            == "Daemon process exited unexpectedly (exit code: "@ + exit_status@
            + "). Check logs at: "@ + log_path@,
{
    let ghost ls = string_views(log_lines@);
    let mut detail = String::new();
    let mut found = false;
    let mut i: usize = 0;
    proof {
        assert(ls.take(0) =~= Seq::<Seq<char>>::empty());
    }
    while i < log_lines.len()
        invariant
            ls == string_views(log_lines@),
            i <= log_lines@.len(),
            detail@ == failure_detail_of(ls.take(i as int)),
            found == has_failure_line(ls.take(i as int)),
            !found ==> detail@ == Seq::<char>::empty(),
        decreases log_lines@.len() - i,
    {
        proof {
            let t = ls.take(i + 1);
            assert(t.drop_last() =~= ls.take(i as int));
            assert(t.last() == ls[i as int]);
            if has_failure_line(t) {
                let j = choose|j: int| 0 <= j < t.len() && is_failure_line(#[trigger] t[j]);
                if j < i {
                    assert(ls.take(i as int)[j] == t[j]);
                }
            }
            if has_failure_line(ls.take(i as int)) {
                let j = choose|j: int| 0 <= j < i && is_failure_line(#[trigger] ls.take(i as int)[j]);
                assert(t[j] == ls.take(i as int)[j]);
            }
        }
        let line = log_lines[i].as_str();
        if failure_line(line) {
            if found {
                detail.append("\n");
            }
            detail.append(line);
            proof {
                assert(detail@ =~= failure_detail_of(ls.take(i + 1)));
            }
            found = true;
        }
        i = i + 1;
    }
    proof {
        assert(ls.take(log_lines@.len() as int) =~= ls);
    }
    if found {
        ChainError::NodeManagement(String::from_str("Daemon failed to start: ").concat(detail.as_str()))
    } else {
        let m = String::from_str("Daemon process exited unexpectedly (exit code: ").concat(exit_status).concat(
            "). Check logs at: ",
        ).concat(log_path);
        ChainError::NodeManagement(m)
    }
}

} // verus!
