//! On-disk layout: where each instance keeps its files.
use crate::chain::{chain_name, ChainType};
use vstd::prelude::*;

verus! {

/// Name of the configuration file looked for in the working and home directories.
pub const CONFIG_FILE_NAME: &'static str = "chain-forge.toml";

/// Name of the data directory under the home directory.
pub const DATA_DIR_NAME: &'static str = ".chain-forge";

/// Relies on `dirs::home_dir`: the user's home directory, if the platform
/// reports one. Depends on the environment, so nothing is known of it.
#[verifier::external_body]
fn home_dir() -> (r: Option<String>) {
    dirs::home_dir().map(|p| p.to_string_lossy().into_owned())
}

/// `a` and `b` joined by one separator.
pub open spec fn join_of(a: Seq<char>, b: Seq<char>) -> Seq<char> {
    a + seq!['/'] + b
}

/// Joins two path pieces with a separator.
pub fn join(a: &str, b: &str) -> (r: String)
    ensures
        r@ == join_of(a@, b@),
{
    proof {
        reveal_strlit("/");
    }
    let r = String::from_str(a).concat("/").concat(b);
    proof {
        assert(r@ =~= join_of(a@, b@));
    }
    r
}

/// The default data root: the data directory under the home directory, or
/// under the working directory where no home directory is known.
pub fn data_dir() -> (r: String)
    ensures
        r@ == DATA_DIR_NAME@ || exists|h: Seq<char>| r@ == join_of(h, DATA_DIR_NAME@),
{
    match home_dir() {
        Some(h) => join(h.as_str(), DATA_DIR_NAME),
        None => String::from_str(DATA_DIR_NAME),
    }
}

/// The directory of one instance: `<root>/<chain>/instances/<id>`.
pub open spec fn instance_dir_of(root: Seq<char>, chain: ChainType, id: Seq<char>) -> Seq<char> {
    join_of(join_of(join_of(root, chain_name(chain)), seq!['i', 'n', 's', 't', 'a', 'n', 'c', 'e', 's']), id)
}

/// The account file of one instance.
pub open spec fn accounts_file_of(root: Seq<char>, chain: ChainType, id: Seq<char>) -> Seq<char> {
    join_of(
        instance_dir_of(root, chain, id),
        seq!['a', 'c', 'c', 'o', 'u', 'n', 't', 's', '.', 'j', 's', 'o', 'n'],
    )
}

/// The snapshot file of one instance.
pub open spec fn instance_info_file_of(root: Seq<char>, chain: ChainType, id: Seq<char>) -> Seq<
    char,
> {
    join_of(
        instance_dir_of(root, chain, id),
        seq!['i', 'n', 's', 't', 'a', 'n', 'c', 'e', '.', 'j', 's', 'o', 'n'],
    )
}

/// The directory of one instance under a data root.
pub fn instance_dir(root: &str, chain: ChainType, id: &str) -> (r: String)
    ensures
        r@ == instance_dir_of(root@, chain, id@),
{
    proof {
        reveal_strlit("instances");
    }
    let c = join(root, chain.as_str());
    let i = join(c.as_str(), "instances");
    join(i.as_str(), id)
}

/// The account file of one instance under a data root.
pub fn accounts_file(root: &str, chain: ChainType, id: &str) -> (r: String)
    ensures
        r@ == accounts_file_of(root@, chain, id@),
{
    proof {
        reveal_strlit("accounts.json");
    }
    let d = instance_dir(root, chain, id);
    join(d.as_str(), "accounts.json")
}

/// The snapshot file of one instance under a data root.
pub fn instance_info_file(root: &str, chain: ChainType, id: &str) -> (r: String)
    ensures
        r@ == instance_info_file_of(root@, chain, id@),
{
    proof {
        reveal_strlit("instance.json");
    }
    let d = instance_dir(root, chain, id);
    join(d.as_str(), "instance.json")
}

/// Two instances of one chain kind under one data root with different ids
/// have different directories, different account files and different
/// snapshot files.
pub proof fn lemma_instance_paths_distinct(
    root: Seq<char>,
    chain: ChainType,
    a: Seq<char>,
    b: Seq<char>,
)
    requires
        a != b,
    ensures
        instance_dir_of(root, chain, a) != instance_dir_of(root, chain, b),
        accounts_file_of(root, chain, a) != accounts_file_of(root, chain, b),
        instance_info_file_of(root, chain, a) != instance_info_file_of(root, chain, b),
{
    let p = join_of(join_of(root, chain_name(chain)), seq!['i', 'n', 's', 't', 'a', 'n', 'c', 'e', 's'])
        + seq!['/'];
    assert(instance_dir_of(root, chain, a) =~= p + a);
    assert(instance_dir_of(root, chain, b) =~= p + b);
    lemma_prefix_cancel(p, a, b);
    let acc = seq!['/', 'a', 'c', 'c', 'o', 'u', 'n', 't', 's', '.', 'j', 's', 'o', 'n'];
    let ins = seq!['/', 'i', 'n', 's', 't', 'a', 'n', 'c', 'e', '.', 'j', 's', 'o', 'n'];
    assert(accounts_file_of(root, chain, a) =~= (p + a) + acc);
    assert(accounts_file_of(root, chain, b) =~= (p + b) + acc);
    assert(instance_info_file_of(root, chain, a) =~= (p + a) + ins);
    assert(instance_info_file_of(root, chain, b) =~= (p + b) + ins);
    lemma_suffix_cancel(p + a, p + b, acc);
    lemma_suffix_cancel(p + a, p + b, ins);
}

proof fn lemma_prefix_cancel(p: Seq<char>, a: Seq<char>, b: Seq<char>)
    requires
        a != b,
    ensures
        p + a != p + b,
{
    if p + a == p + b {
        assert(a =~= (p + a).subrange(p.len() as int, (p + a).len() as int));
        assert(b =~= (p + b).subrange(p.len() as int, (p + b).len() as int));
    }
}

proof fn lemma_suffix_cancel(a: Seq<char>, b: Seq<char>, q: Seq<char>)
    requires
        a != b,
    ensures
        a + q != b + q,
{
    if a + q == b + q {
        assert(a =~= (a + q).subrange(0, a.len() as int));
        assert(b =~= (b + q).subrange(0, b.len() as int));
    }
}

/// Whether `k` is the dot that starts the extension of the last path
/// component of `p`: the last dot of that component, not its first character.
pub open spec fn is_extension_dot(p: Seq<char>, k: int) -> bool {
    &&& 0 < k < p.len()
    &&& p[k] == '.'
    &&& p[k - 1] != '/'
    &&& forall|j: int| k < j < p.len() ==> p[j] != '.' && p[j] != '/'
}

/// `p` without the extension of its last component.
pub open spec fn stem_of(p: Seq<char>) -> Seq<char> {
    if exists|k: int| is_extension_dot(p, k) {
        p.take(choose|k: int| is_extension_dot(p, k))
    } else {
        p
    }
}

/// `p` with the extension of its last component replaced by `ext`.
pub open spec fn with_extension_of(p: Seq<char>, ext: Seq<char>) -> Seq<char> {
    stem_of(p) + seq!['.'] + ext
}

/// Replaces the extension of the last component of `p` by `ext` (adds it
/// where there is none).
pub fn with_extension(p: &str, ext: &str) -> (r: String)
    ensures
        r@ == with_extension_of(p@, ext@),
{
    let n = p.unicode_len();
    let mut i: usize = n;
    let mut found = false;
    // scan back over the last component for a dot or a separator
    while i > 0 && !found
        invariant
            n == p@.len(),
            i <= n,
            found ==> 0 < i && (p@[i - 1] == '.' || p@[i - 1] == '/'),
            forall|j: int| i <= j < n ==> p@[j] != '.' && p@[j] != '/',
        decreases i, if found { 0int } else { 1int },
    {
        let c = p.get_char(i - 1);
        if c == '.' || c == '/' {
            found = true;
        } else {
            i = i - 1;
        }
    }
    let mut stem_len: usize = n;
    if i > 1 {
        let k = i - 1;
        if p.get_char(k) == '.' && p.get_char(k - 1) != '/' {
            stem_len = k;
            proof {
                assert(is_extension_dot(p@, k as int));
                assert forall|k2: int| is_extension_dot(p@, k2) implies k2 == k by {
                    if k2 < k {
                        assert(p@[k as int] != '.');
                    }
                    if k2 > k {
                        assert(p@[k2] != '.');
                    }
                }
            }
        }
    }
    proof {
        if stem_len == n {
            assert forall|k2: int| !is_extension_dot(p@, k2) by {
                if is_extension_dot(p@, k2) {
                    if i > 0 {
                        assert(p@[i - 1] == '.' || p@[i - 1] == '/');
                    }
                    if k2 >= i {
                        assert(p@[k2] != '.');
                    } else if k2 < i - 1 {
                        assert(p@[i - 1] != '.' && p@[i - 1] != '/');
                    }
                }
            }
            assert(p@.take(n as int) =~= p@);
        }
        reveal_strlit(".");
    }
    let stem = p.substring_char(0, stem_len);
    let r = String::from_str(stem).concat(".").concat(ext);
    proof {
        assert(r@ =~= with_extension_of(p@, ext@));
    }
    r
}

/// Where the accounts of an instance are kept.
pub struct AccountsStorage {
    accounts_file: String,
}

impl View for AccountsStorage {
    type V = Seq<char>;

    /// The path of the account file.
    closed spec fn view(&self) -> Seq<char> {
        self.accounts_file@
    }
}

impl AccountsStorage {
    /// Storage at the default place of a chain kind: `<data_dir>/<chain>/accounts.json`.
    pub fn new(data_dir: &str, chain: ChainType) -> (r: AccountsStorage)
        ensures
            r@ == join_of(
                join_of(data_dir@, chain_name(chain)),
                seq!['a', 'c', 'c', 'o', 'u', 'n', 't', 's', '.', 'j', 's', 'o', 'n'],
            ),
    {
        proof {
            reveal_strlit("accounts.json");
        }
        let c = join(data_dir, chain.as_str());
        AccountsStorage { accounts_file: join(c.as_str(), "accounts.json") }
    }

    /// Storage at a given file.
    pub fn with_path(accounts_file: String) -> (r: AccountsStorage)
        ensures
            r@ == accounts_file@,
    {
        AccountsStorage { accounts_file }
    }

    /// The file the accounts are kept in.
    pub fn accounts_file(&self) -> (r: &str)
        ensures
            r@ == self@,
    {
        self.accounts_file.as_str()
    }
}

} // verus!
