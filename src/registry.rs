//! The shared node registry: which instances exist and whether they run.
//!
//! `NodeRegistry` is the in-memory form of the registry document together with
//! the paths it is kept under. Every operation of the registry is a load, a
//! pure change of this value, and a save; the change is what this module
//! implements and proves, the file work is done by the caller.
use crate::chain::{chain_name, ChainType, NodeStatus};
use crate::paths::{data_dir, join, join_of, with_extension, with_extension_of};
use crate::text::str_eq;
use vstd::prelude::*;

verus! {

/// Relies on `chrono::Utc::now`: the current time as seconds since the Unix epoch.
/// Nothing is known of the value.
#[verifier::external_body]
fn now_timestamp() -> (r: i64) {
    chrono::Utc::now().timestamp()
}

/// Mathematical form of a registry entry.
pub struct NodeInfoView {
    pub node_id: Seq<char>,
    pub name: Option<Seq<char>>,
    pub chain: ChainType,
    pub instance_id: Seq<char>,
    pub rpc_url: Seq<char>,
    pub rpc_port: u16,
    pub accounts_count: u32,
    pub status: NodeStatus,
    pub started_at: Option<i64>,
}

/// Information about a registered node.
#[derive(Debug, Clone)]
pub struct NodeInfo {
    /// Unique node identifier: "{chain}:{instance_id}"
    pub node_id: String,
    /// Human-readable name for the node
    pub name: Option<String>,
    /// Type of blockchain
    pub chain: ChainType,
    /// Instance ID within the chain
    pub instance_id: String,
    /// RPC URL for connecting to the node
    pub rpc_url: String,
    /// RPC port
    pub rpc_port: u16,
    /// Number of accounts configured
    pub accounts_count: u32,
    /// Current status
    pub status: NodeStatus,
    /// When the node was started, in seconds since the Unix epoch (UTC)
    pub started_at: Option<i64>,
}

pub open spec fn opt_view(o: Option<String>) -> Option<Seq<char>> {
    match o {
        Some(s) => Some(s@),
        None => None,
    }
}

impl View for NodeInfo {
    type V = NodeInfoView;

    open spec fn view(&self) -> NodeInfoView {
        NodeInfoView {
            node_id: self.node_id@,
            name: opt_view(self.name),
            chain: self.chain,
            instance_id: self.instance_id@,
            rpc_url: self.rpc_url@,
            rpc_port: self.rpc_port,
            accounts_count: self.accounts_count,
            status: self.status,
            started_at: self.started_at,
        }
    }
}

/// The node id of an instance: the chain's name, a colon, the instance id.
pub open spec fn node_id_of(chain: ChainType, instance_id: Seq<char>) -> Seq<char> {
    chain_name(chain) + seq![':'] + instance_id
}

fn copy_opt(o: &Option<String>) -> (r: Option<String>)
    ensures
        opt_view(r) == opt_view(*o),
{
    match o {
        Some(s) => Some(s.clone()),
        None => None,
    }
}

impl NodeInfo {
    /// A new entry for a node that has just started: status `Running`,
    /// started now.
    pub fn new(
        chain: ChainType,
        instance_id: &str,
        name: Option<String>,
        rpc_url: String,
        rpc_port: u16,
        accounts_count: u32,
    ) -> (r: NodeInfo)
        ensures
            r@.node_id == node_id_of(chain, instance_id@),
            r@.name == opt_view(name),
            r@.chain == chain,
            r@.instance_id == instance_id@,
            r@.rpc_url == rpc_url@,
            r@.rpc_port == rpc_port,
            r@.accounts_count == accounts_count,
            r@.status == NodeStatus::Running,
            r@.started_at is Some,
    {
        NodeInfo {
            node_id: NodeRegistry::node_id(chain, instance_id),
            name,
            chain,
            instance_id: String::from_str(instance_id),
            rpc_url,
            rpc_port,
            accounts_count,
            status: NodeStatus::Running,
            started_at: Some(now_timestamp()),
        }
    }

    /// The name if one is set, otherwise the instance id.
    pub fn display_name(&self) -> (r: &str)
        ensures
            r@ == (match self@.name {
                Some(n) => n,
                None => self@.instance_id,
            }),
    {
        match &self.name {
            Some(n) => n.as_str(),
            None => self.instance_id.as_str(),
        }
    }

    /// A copy of this entry.
    pub fn duplicate(&self) -> (r: NodeInfo)
        ensures
            r@ == self@,
    {
        NodeInfo {
            node_id: self.node_id.clone(),
            name: copy_opt(&self.name),
            chain: self.chain,
            instance_id: self.instance_id.clone(),
            rpc_url: self.rpc_url.clone(),
            rpc_port: self.rpc_port,
            accounts_count: self.accounts_count,
            status: self.status,
            started_at: self.started_at,
        }
    }
}

/// The views of a sequence of entries.
pub open spec fn views(s: Seq<NodeInfo>) -> Seq<NodeInfoView> {
    s.map_values(|n: NodeInfo| n@)
}

/// Some entry of `s` has node id `id`.
pub open spec fn has_node(s: Seq<NodeInfoView>, id: Seq<char>) -> bool {
    exists|i: int| 0 <= i < s.len() && (#[trigger] s[i]).node_id == id
}

/// No two entries of `s` share a node id.
pub open spec fn unique_ids(s: Seq<NodeInfoView>) -> bool {
    forall|i: int, j: int|
        0 <= i < s.len() && 0 <= j < s.len() && (#[trigger] s[i]).node_id == (#[trigger] s[j]).node_id
            ==> i == j
}

/// The map from node id to entry that a sequence of entries describes.
pub open spec fn node_map(s: Seq<NodeInfoView>) -> Map<Seq<char>, NodeInfoView> {
    Map::new(
        |k: Seq<char>| has_node(s, k),
        |k: Seq<char>| s[choose|i: int| 0 <= i < s.len() && (#[trigger] s[i]).node_id == k],
    )
}

/// In a sequence with unique ids, the entry at `i` is what the map holds for its id.
pub proof fn lemma_node_map_at(s: Seq<NodeInfoView>, i: int)
    requires
        unique_ids(s),
        0 <= i < s.len(),
    ensures
        node_map(s).contains_key(s[i].node_id),
        node_map(s)[s[i].node_id] == s[i],
{
    let k = s[i].node_id;
    assert(has_node(s, k));
    let j = choose|j: int| 0 <= j < s.len() && (#[trigger] s[j]).node_id == k;
    assert(s[j].node_id == s[i].node_id);
}

/// Every id in the map comes from some entry.
pub proof fn lemma_node_map_key(s: Seq<NodeInfoView>, k: Seq<char>)
    requires
        unique_ids(s),
        node_map(s).contains_key(k),
    ensures
        exists|i: int| 0 <= i < s.len() && (#[trigger] s[i]).node_id == k && node_map(s)[k] == s[i],
{
    let i = choose|i: int| 0 <= i < s.len() && (#[trigger] s[i]).node_id == k;
    lemma_node_map_at(s, i);
}

/// Which entries a filtered listing keeps.
#[derive(Debug, Clone, Copy, PartialEq, Eq, Structural)]
pub enum Selector {
    All,
    Chain(ChainType),
    NotStopped,
}

/// Whether `sel` keeps the entry `v`.
pub open spec fn selects(sel: Selector, v: NodeInfoView) -> bool {
    match sel {
        Selector::All => true,
        Selector::Chain(c) => v.chain == c,
        Selector::NotStopped => v.status != NodeStatus::Stopped,
    }
}

/// The part of a registry map that `sel` keeps.
pub open spec fn select_map(m: Map<Seq<char>, NodeInfoView>, sel: Selector) -> Map<
    Seq<char>,
    NodeInfoView,
> {
    Map::new(|k: Seq<char>| m.contains_key(k) && selects(sel, m[k]), |k: Seq<char>| m[k])
}

fn selects_exec(sel: Selector, n: &NodeInfo) -> (r: bool)
    ensures
        r == selects(sel, n@),
{
    match sel {
        Selector::All => true,
        Selector::Chain(c) => n.chain == c,
        Selector::NotStopped => n.status != NodeStatus::Stopped,
    }
}

/// A selection of `s` through the increasing positions `g` has the map that
/// the selection of `s`'s map describes.
proof fn lemma_selection(s: Seq<NodeInfoView>, t: Seq<NodeInfoView>, g: Seq<int>, sel: Selector)
    requires
        unique_ids(s),
        g.len() == t.len(),
        forall|a: int| 0 <= a < g.len() ==> 0 <= #[trigger] g[a] < s.len(),
        forall|a: int, b: int| 0 <= a < b < g.len() ==> #[trigger] g[a] < #[trigger] g[b],
        forall|a: int| 0 <= a < t.len() ==> #[trigger] t[a] == s[g[a]] && selects(sel, s[g[a]]),
        forall|b: int|
            0 <= b < s.len() && selects(sel, #[trigger] s[b]) ==> exists|a: int|
                0 <= a < g.len() && #[trigger] g[a] == b,
    ensures
        unique_ids(t),
        node_map(t) == select_map(node_map(s), sel),
{
    assert(unique_ids(t)) by {
        assert forall|a: int, b: int|
            0 <= a < t.len() && 0 <= b < t.len() && (#[trigger] t[a]).node_id == (
            #[trigger] t[b]).node_id implies a == b by {
            assert(s[g[a]].node_id == s[g[b]].node_id);
            if a < b {
                assert(g[a] < g[b]);
            }
            if b < a {
                assert(g[b] < g[a]);
            }
        }
    }
    let m = node_map(s);
    assert forall|k: Seq<char>|
        #![auto]
        node_map(t).contains_key(k) <==> select_map(m, sel).contains_key(k) by {
        if node_map(t).contains_key(k) {
            let a = choose|a: int| 0 <= a < t.len() && (#[trigger] t[a]).node_id == k;
            assert(t[a] == s[g[a]]);
            lemma_node_map_at(s, g[a]);
        }
        if select_map(m, sel).contains_key(k) {
            lemma_node_map_key(s, k);
            let b = choose|b: int| 0 <= b < s.len() && (#[trigger] s[b]).node_id == k && m[k] == s[b];
            assert(selects(sel, s[b]));
            let a = choose|a: int| 0 <= a < g.len() && #[trigger] g[a] == b;
            assert(t[a].node_id == k);
            assert(has_node(t, k));
        }
    }
    assert forall|k: Seq<char>|
        #![auto]
        node_map(t).contains_key(k) implies node_map(t)[k] == select_map(m, sel)[k] by {
        lemma_node_map_key(t, k);
        let a = choose|a: int| 0 <= a < t.len() && (#[trigger] t[a]).node_id == k && node_map(t)[k] == t[a];
        assert(t[a] == s[g[a]]);
        lemma_node_map_at(s, g[a]);
    }
    assert(node_map(t) =~= select_map(m, sel));
}

/// What reading one registry file gave: no file, a file that does not parse,
/// or the entries of a file that parsed.
pub enum RegistrySource {
    Missing,
    Corrupt,
    Parsed(Vec<NodeInfo>),
}

/// The entries a source holds, if it parsed.
pub open spec fn source_entries(src: RegistrySource) -> Option<Seq<NodeInfoView>> {
    match src {
        RegistrySource::Parsed(v) => Some(views(v@)),
        _ => None,
    }
}

/// The entries that loading yields: those of the primary file; where that
/// file does not parse, those of the backup; where neither gives any, none.
/// A missing primary file means an empty registry.
pub open spec fn loaded_entries(primary: RegistrySource, backup: RegistrySource) -> Seq<
    NodeInfoView,
> {
    match primary {
        RegistrySource::Missing => Seq::empty(),
        RegistrySource::Parsed(v) => views(v@),
        RegistrySource::Corrupt => match backup {
            RegistrySource::Parsed(v) => views(v@),
            _ => Seq::empty(),
        },
    }
}

/// The map that a list of entries gives when each is registered in turn.
pub open spec fn registered(s: Seq<NodeInfoView>) -> Map<Seq<char>, NodeInfoView>
    decreases s.len(),
{
    if s.len() == 0 {
        Map::empty()
    } else {
        registered(s.drop_last()).insert(s.last().node_id, s.last())
    }
}

/// One step of writing the registry document.
#[derive(Debug, Clone, Copy, PartialEq, Eq, Structural)]
pub enum SaveStep {
    /// Copy the current document to the backup path.
    CopyPrimaryToBackup,
    /// Write the new document, locked and synced, to the temporary path.
    WriteTemp,
    /// Rename the temporary file over the document.
    RenameTempToPrimary,
}

/// The three files involved in a save, each absent or holding a text.
pub struct RegistryFiles {
    pub primary: Option<Seq<char>>,
    pub backup: Option<Seq<char>>,
    pub temp: Option<Seq<char>>,
}

/// The files after one step of saving the document `doc`.
pub open spec fn apply_step(f: RegistryFiles, step: SaveStep, doc: Seq<char>) -> RegistryFiles {
    match step {
        SaveStep::CopyPrimaryToBackup => match f.primary {
            Some(p) => RegistryFiles { backup: Some(p), ..f },
            None => f,
        },
        SaveStep::WriteTemp => RegistryFiles { temp: Some(doc), ..f },
        SaveStep::RenameTempToPrimary => match f.temp {
            Some(t) => RegistryFiles { primary: Some(t), temp: None, ..f },
            None => f,
        },
    }
}

/// The files after the steps `steps` of saving `doc`.
pub open spec fn apply_steps(f: RegistryFiles, steps: Seq<SaveStep>, doc: Seq<char>) -> RegistryFiles
    decreases steps.len(),
{
    if steps.len() == 0 {
        f
    } else {
        apply_step(apply_steps(f, steps.drop_last(), doc), steps.last(), doc)
    }
}

/// The steps of a save: keep the current document as backup where there is
/// one, write the new one aside, then move it into place.
pub open spec fn save_steps(primary_exists: bool) -> Seq<SaveStep> {
    if primary_exists {
        seq![SaveStep::CopyPrimaryToBackup, SaveStep::WriteTemp, SaveStep::RenameTempToPrimary]
    } else {
        seq![SaveStep::WriteTemp, SaveStep::RenameTempToPrimary]
    }
}

/// A save stopped at any point before its last step leaves the document as it
/// was; a save that ran to the end leaves the new document in place, the old
/// one as backup, and no temporary file.
pub proof fn lemma_save_is_atomic(f: RegistryFiles, doc: Seq<char>, n: int)
    requires
        0 <= n < save_steps(f.primary is Some).len(),
    ensures
        apply_steps(f, save_steps(f.primary is Some).take(n), doc).primary == f.primary,
        ({
            let done = apply_steps(f, save_steps(f.primary is Some), doc);
            &&& done.primary == Some(doc)
            &&& done.temp is None
            &&& done.backup == (if f.primary is Some {
                f.primary
            } else {
                f.backup
            })
        }),
{
    let steps = save_steps(f.primary is Some);
    reveal_with_fuel(apply_steps, 4);
    assert(steps.take(0).len() == 0);
    if f.primary is Some {
        assert(steps.take(1) =~= seq![SaveStep::CopyPrimaryToBackup]);
        assert(steps.take(1).drop_last() =~= steps.take(0));
        assert(steps.take(2) =~= seq![SaveStep::CopyPrimaryToBackup, SaveStep::WriteTemp]);
        assert(steps.take(2).drop_last() =~= steps.take(1));
        assert(steps.drop_last() =~= steps.take(2));
    } else {
        assert(steps.take(1) =~= seq![SaveStep::WriteTemp]);
        assert(steps.take(1).drop_last() =~= steps.take(0));
        assert(steps.drop_last() =~= steps.take(1));
    }
}

/// The steps of saving the registry, given whether its document exists now.
pub fn save_plan(primary_exists: bool) -> (r: Vec<SaveStep>)
    ensures
        r@ == save_steps(primary_exists),
{
    let mut r: Vec<SaveStep> = Vec::new();
    if primary_exists {
        r.push(SaveStep::CopyPrimaryToBackup);
    }
    r.push(SaveStep::WriteTemp);
    r.push(SaveStep::RenameTempToPrimary);
    proof {
        assert(r@ =~= save_steps(primary_exists));
    }
    r
}

/// Node registry: the registry document's entries and where it is kept.
pub struct NodeRegistry {
    registry_path: String,
    backup_path: String,
    nodes: Vec<NodeInfo>,
}

impl View for NodeRegistry {
    type V = Map<Seq<char>, NodeInfoView>;

    closed spec fn view(&self) -> Map<Seq<char>, NodeInfoView> {
        node_map(views(self.nodes@))
    }
}

impl NodeRegistry {
    /// The entries in their stored order.
    pub closed spec fn entries(&self) -> Seq<NodeInfoView> {
        views(self.nodes@)
    }

    /// Where the registry document is kept.
    pub closed spec fn registry_path(&self) -> Seq<char> {
        self.registry_path@
    }

    /// Where the previous generation of the document is kept.
    pub closed spec fn backup_path(&self) -> Seq<char> {
        self.backup_path@
    }

    /// Well-formedness: node ids are unique.
    pub closed spec fn wf(&self) -> bool {
        unique_ids(self.entries())
    }

    /// A registry kept at `registry_path`, with its backup beside it
    /// (the extension replaced by `json.bak`); no entries yet.
    pub fn with_path(registry_path: String) -> (r: NodeRegistry)
        ensures
            r.wf(),
            r@ == Map::<Seq<char>, NodeInfoView>::empty(),
            r.registry_path() == registry_path@,
            r.backup_path() == with_extension_of(registry_path@, "json.bak"@),
    {
        let backup_path = with_extension(registry_path.as_str(), "json.bak");
        let r = NodeRegistry { registry_path, backup_path, nodes: Vec::new() };
        proof {
            assert(r.entries() =~= Seq::<NodeInfoView>::empty());
            assert(node_map(r.entries()) =~= Map::<Seq<char>, NodeInfoView>::empty());
        }
        r
    }

    /// A registry kept as `registry.json` in the default data directory; no
    /// entries yet.
    pub fn new() -> (r: NodeRegistry)
        ensures
            r.wf(),
            r@ == Map::<Seq<char>, NodeInfoView>::empty(),
            exists|d: Seq<char>| r.registry_path() == join_of(d, "registry.json"@),
    {
        let d = data_dir();
        NodeRegistry::with_path(join(d.as_str(), "registry.json"))
    }

    /// Where the registry document is kept.
    pub fn registry_file(&self) -> (r: &str)
        ensures
            r@ == self.registry_path(),
    {
        self.registry_path.as_str()
    }

    /// Where the previous generation of the document is kept.
    pub fn backup_file(&self) -> (r: &str)
        ensures
            r@ == self.backup_path(),
    {
        self.backup_path.as_str()
    }

    /// Where a new document is written before it is moved into place.
    pub fn temp_file(&self) -> (r: String)
        ensures
            r@ == with_extension_of(self.registry_path(), "json.tmp"@),
    {
        with_extension(self.registry_path.as_str(), "json.tmp")
    }

    /// Replace the entries by those that loading the two files yields.
    pub fn load(&mut self, primary: RegistrySource, backup: RegistrySource)
        requires
            old(self).wf(),
        ensures
            final(self).wf(),
            final(self)@ == registered(loaded_entries(primary, backup)),
            final(self).registry_path() == old(self).registry_path(),
            final(self).backup_path() == old(self).backup_path(),
    {
        let ghost src = loaded_entries(primary, backup);
        let entries: Vec<NodeInfo> = match primary {
            RegistrySource::Missing => Vec::new(),
            RegistrySource::Parsed(v) => v,
            RegistrySource::Corrupt => match backup {
                RegistrySource::Parsed(v) => v,
                _ => Vec::new(),
            },
        };
        proof {
            assert(views(entries@) =~= src);
        }
        self.nodes = Vec::new();
        proof {
            assert(self.entries() =~= Seq::<NodeInfoView>::empty());
            assert(node_map(self.entries()) =~= Map::<Seq<char>, NodeInfoView>::empty());
            assert(src.take(0) =~= Seq::<NodeInfoView>::empty());
        }
        let mut i: usize = 0;
        while i < entries.len()
            invariant
                src == views(entries@),
                i <= entries@.len(),
                self.wf(),
                self@ == registered(src.take(i as int)),
                self.registry_path() == old(self).registry_path(),
                self.backup_path() == old(self).backup_path(),
            decreases entries@.len() - i,
        {
            let n = entries[i].duplicate();
            self.register(n);
            proof {
                assert(src.take(i + 1).drop_last() =~= src.take(i as int));
            }
            i = i + 1;
        }
        proof {
            assert(src.take(entries@.len() as int) =~= src);
        }
    }

    /// Generate a node id from a chain kind and an instance id.
    pub fn node_id(chain: ChainType, instance_id: &str) -> (r: String)
        ensures
            r@ == node_id_of(chain, instance_id@),
    {
        proof {
            reveal_strlit(":");
        }
        let r = String::from_str(chain.as_str()).concat(":").concat(instance_id);
        proof {
            assert(r@ =~= node_id_of(chain, instance_id@));
        }
        r
    }

    /// Position of the entry with node id `id`, if there is one.
    fn find(&self, id: &str) -> (r: Option<usize>)
        requires
            self.wf(),
        ensures
            r is Some <==> self@.contains_key(id@),
            r is Some ==> r->Some_0 < self.nodes@.len() && self.entries()[r->Some_0 as int].node_id
                == id@,
    {
        let mut i: usize = 0;
        while i < self.nodes.len()
            invariant
                i <= self.nodes@.len(),
                forall|j: int| 0 <= j < i ==> (#[trigger] self.nodes@[j]).node_id@ != id@,
            decreases self.nodes@.len() - i,
        {
            if str_eq(self.nodes[i].node_id.as_str(), id) {
                proof {
                    assert(self.entries()[i as int].node_id == id@);
                    assert(has_node(self.entries(), id@));
                }
                return Some(i);
            }
            i = i + 1;
        }
        proof {
            if has_node(self.entries(), id@) {
                let j = choose|j: int|
                    0 <= j < self.entries().len() && (#[trigger] self.entries()[j]).node_id == id@;
                assert(self.nodes@[j].node_id@ == id@);
            }
        }
        None
    }

    /// Get a specific node by id.
    pub fn get(&self, node_id: &str) -> (r: Option<NodeInfo>)
        requires
            self.wf(),
        ensures
            r is Some <==> self@.contains_key(node_id@),
            r is Some ==> r->Some_0@ == self@[node_id@],
    {
        match self.find(node_id) {
            Some(i) => {
                proof {
                    lemma_node_map_at(self.entries(), i as int);
                }
                Some(self.nodes[i].duplicate())
            },
            None => None,
        }
    }

    /// Register a node, replacing any entry with the same node id.
    pub fn register(&mut self, node: NodeInfo)
        requires
            old(self).wf(),
        ensures
            final(self).wf(),
            final(self)@ == old(self)@.insert(node@.node_id, node@),
            final(self).registry_path() == old(self).registry_path(),
            final(self).backup_path() == old(self).backup_path(),
    {
        let ghost old_s = self.entries();
        let ghost nv = node@;
        match self.find(node.node_id.as_str()) {
            Some(j) => {
                self.nodes.set(j, node);
                proof {
                    let s = self.entries();
                    assert(s =~= old_s.update(j as int, nv));
                    assert(unique_ids(s)) by {
                        assert forall|a: int, b: int|
                            0 <= a < s.len() && 0 <= b < s.len() && (#[trigger] s[a]).node_id == (
                            #[trigger] s[b]).node_id implies a == b by {
                            assert(old_s[a].node_id == s[a].node_id);
                            assert(old_s[b].node_id == s[b].node_id);
                        }
                    }
                    assert(node_map(s) =~= node_map(old_s).insert(nv.node_id, nv)) by {
                        assert forall|k: Seq<char>|
                            #![auto]
                            node_map(s).contains_key(k) <==> node_map(old_s).insert(
                                nv.node_id,
                                nv,
                            ).contains_key(k) by {
                            if node_map(s).contains_key(k) {
                                let i = choose|i: int| 0 <= i < s.len() && (#[trigger] s[i]).node_id == k;
                                assert(old_s[i].node_id == k);
                            }
                            if node_map(old_s).contains_key(k) {
                                let i = choose|i: int|
                                    0 <= i < old_s.len() && (#[trigger] old_s[i]).node_id == k;
                                assert(s[i].node_id == k);
                            }
                            if k == nv.node_id {
                                assert(s[j as int].node_id == k);
                            }
                        }
                        assert forall|k: Seq<char>|
                            #![auto]
                            node_map(s).contains_key(k) implies node_map(s)[k] == node_map(
                                old_s,
                            ).insert(nv.node_id, nv)[k] by {
                            lemma_node_map_key(s, k);
                            let i = choose|i: int|
                                0 <= i < s.len() && (#[trigger] s[i]).node_id == k && node_map(s)[k]
                                    == s[i];
                            if i != j {
                                lemma_node_map_at(old_s, i);
                            }
                        }
                    }
                }
            },
            None => {
                self.nodes.push(node);
                proof {
                    let s = self.entries();
                    assert(s =~= old_s.push(nv));
                    assert(unique_ids(s)) by {
                        assert forall|a: int, b: int|
                            0 <= a < s.len() && 0 <= b < s.len() && (#[trigger] s[a]).node_id == (
                            #[trigger] s[b]).node_id implies a == b by {
                            if a < old_s.len() && b == old_s.len() {
                                assert(old_s[a].node_id == nv.node_id);
                                assert(has_node(old_s, nv.node_id));
                            }
                            if b < old_s.len() && a == old_s.len() {
                                assert(old_s[b].node_id == nv.node_id);
                                assert(has_node(old_s, nv.node_id));
                            }
                        }
                    }
                    assert(node_map(s) =~= node_map(old_s).insert(nv.node_id, nv)) by {
                        assert forall|k: Seq<char>|
                            #![auto]
                            node_map(s).contains_key(k) <==> node_map(old_s).insert(
                                nv.node_id,
                                nv,
                            ).contains_key(k) by {
                            if node_map(s).contains_key(k) {
                                let i = choose|i: int| 0 <= i < s.len() && (#[trigger] s[i]).node_id == k;
                                if i < old_s.len() {
                                    assert(old_s[i].node_id == k);
                                }
                            }
                            if node_map(old_s).contains_key(k) {
                                let i = choose|i: int|
                                    0 <= i < old_s.len() && (#[trigger] old_s[i]).node_id == k;
                                assert(s[i].node_id == k);
                            }
                            if k == nv.node_id {
                                assert(s[old_s.len() as int].node_id == k);
                            }
                        }
                        assert forall|k: Seq<char>|
                            #![auto]
                            node_map(s).contains_key(k) implies node_map(s)[k] == node_map(
                                old_s,
                            ).insert(nv.node_id, nv)[k] by {
                            lemma_node_map_key(s, k);
                            let i = choose|i: int|
                                0 <= i < s.len() && (#[trigger] s[i]).node_id == k && node_map(s)[k]
                                    == s[i];
                            if i < old_s.len() {
                                lemma_node_map_at(old_s, i);
                            }
                        }
                    }
                }
            },
        }
    }

    /// Copies of the entries that `sel` keeps, in stored order.
    fn select(&self, sel: Selector) -> (r: Vec<NodeInfo>)
        requires
            self.wf(),
        ensures
            unique_ids(views(r@)),
            node_map(views(r@)) == select_map(self@, sel),
    {
        let ghost s = self.entries();
        let mut out: Vec<NodeInfo> = Vec::new();
        let ghost mut g: Seq<int> = Seq::empty();
        let mut i: usize = 0;
        while i < self.nodes.len()
            invariant
                s == self.entries(),
                unique_ids(s),
                i <= s.len(),
                g.len() == out@.len(),
                forall|a: int| 0 <= a < g.len() ==> 0 <= #[trigger] g[a] < i,
                forall|a: int, b: int| 0 <= a < b < g.len() ==> #[trigger] g[a] < #[trigger] g[b],
                forall|a: int|
                    0 <= a < out@.len() ==> #[trigger] views(out@)[a] == s[g[a]] && selects(
                        sel,
                        s[g[a]],
                    ),
                forall|b: int|
                    0 <= b < i && selects(sel, #[trigger] s[b]) ==> exists|a: int|
                        0 <= a < g.len() && #[trigger] g[a] == b,
            decreases s.len() - i,
        {
            let ghost g0 = g;
            let ghost out0 = views(out@);
            if selects_exec(sel, &self.nodes[i]) {
                let n = self.nodes[i].duplicate();
                out.push(n);
                proof {
                    g = g.push(i as int);
                    assert(views(out@) =~= out0.push(s[i as int]));
                }
            }
            proof {
                assert forall|a: int| 0 <= a < g0.len() implies g[a] == g0[a] && views(out@)[a]
                    == out0[a] by {}
                assert forall|b: int|
                    0 <= b < i + 1 && selects(sel, #[trigger] s[b]) implies exists|a: int|
                        0 <= a < g.len() && #[trigger] g[a] == b by {
                    if b == i {
                        assert(g[g.len() - 1] == b);
                    } else {
                        let a = choose|a: int| 0 <= a < g0.len() && #[trigger] g0[a] == b;
                        assert(g[a] == b);
                    }
                }
            }
            i = i + 1;
        }
        proof {
            lemma_selection(s, views(out@), g, sel);
        }
        out
    }

    /// List all registered nodes.
    pub fn list(&self) -> (r: Vec<NodeInfo>)
        requires
            self.wf(),
        ensures
            unique_ids(views(r@)),
            node_map(views(r@)) == self@,
    {
        let r = self.select(Selector::All);
        proof {
            assert(select_map(self@, Selector::All) =~= self@);
        }
        r
    }

    /// List the nodes of one chain kind.
    pub fn list_by_chain(&self, chain: ChainType) -> (r: Vec<NodeInfo>)
        requires
            self.wf(),
        ensures
            unique_ids(views(r@)),
            node_map(views(r@)) == select_map(self@, Selector::Chain(chain)),
    {
        self.select(Selector::Chain(chain))
    }

    /// Remove every entry whose status is `Stopped`.
    pub fn clear_stopped(&mut self)
        requires
            old(self).wf(),
        ensures
            final(self).wf(),
            final(self)@ == select_map(old(self)@, Selector::NotStopped),
            final(self).registry_path() == old(self).registry_path(),
            final(self).backup_path() == old(self).backup_path(),
    {
        let kept = self.select(Selector::NotStopped);
        self.nodes = kept;
    }

    /// Remove the entry with node id `node_id`, if there is one.
    pub fn unregister(&mut self, node_id: &str)
        requires
            old(self).wf(),
        ensures
            final(self).wf(),
            final(self)@ == old(self)@.remove(node_id@),
            final(self).registry_path() == old(self).registry_path(),
            final(self).backup_path() == old(self).backup_path(),
    {
        let ghost old_s = self.entries();
        match self.find(node_id) {
            Some(j) => {
                self.nodes.remove(j);
                proof {
                    let s = self.entries();
                    assert(s =~= old_s.remove(j as int));
                    assert(unique_ids(s)) by {
                        assert forall|a: int, b: int|
                            0 <= a < s.len() && 0 <= b < s.len() && (#[trigger] s[a]).node_id == (
                            #[trigger] s[b]).node_id implies a == b by {
                            let a2 = if a < j { a } else { a + 1 };
                            let b2 = if b < j { b } else { b + 1 };
                            assert(old_s[a2].node_id == old_s[b2].node_id);
                        }
                    }
                    assert(node_map(s) =~= node_map(old_s).remove(node_id@)) by {
                        assert forall|k: Seq<char>|
                            #![auto]
                            node_map(s).contains_key(k) <==> node_map(old_s).remove(
                                node_id@,
                            ).contains_key(k) by {
                            if node_map(s).contains_key(k) {
                                let i = choose|i: int| 0 <= i < s.len() && (#[trigger] s[i]).node_id == k;
                                let i2 = if i < j { i } else { i + 1 };
                                assert(old_s[i2].node_id == k);
                                assert(old_s[j as int].node_id == node_id@);
                            }
                            if node_map(old_s).remove(node_id@).contains_key(k) {
                                let i = choose|i: int|
                                    0 <= i < old_s.len() && (#[trigger] old_s[i]).node_id == k;
                                assert(i != j);
                                let i2 = if i < j { i } else { i - 1 };
                                assert(s[i2].node_id == k);
                            }
                        }
                        assert forall|k: Seq<char>|
                            #![auto]
                            node_map(s).contains_key(k) implies node_map(s)[k] == node_map(
                                old_s,
                            ).remove(node_id@)[k] by {
                            lemma_node_map_key(s, k);
                            let i = choose|i: int|
                                0 <= i < s.len() && (#[trigger] s[i]).node_id == k && node_map(s)[k]
                                    == s[i];
                            let i2 = if i < j { i } else { i + 1 };
                            lemma_node_map_at(old_s, i2);
                        }
                    }
                }
            },
            None => {
                proof {
                    assert(node_map(old_s) =~= node_map(old_s).remove(node_id@));
                }
            },
        }
    }

    /// Set the status of the entry with node id `node_id`; nothing happens
    /// when there is no such entry.
    pub fn update_status(&mut self, node_id: &str, status: NodeStatus)
        requires
            old(self).wf(),
        ensures
            final(self).wf(),
            old(self)@.contains_key(node_id@) ==> final(self)@ == old(self)@.insert(
                node_id@,
                NodeInfoView { status, ..old(self)@[node_id@] },
            ),
            !old(self)@.contains_key(node_id@) ==> final(self)@ == old(self)@,
            final(self).registry_path() == old(self).registry_path(),
            final(self).backup_path() == old(self).backup_path(),
    {
        match self.find(node_id) {
            Some(j) => {
                let mut n = self.nodes[j].duplicate();
                n.status = status;
                proof {
                    lemma_node_map_at(self.entries(), j as int);
                }
                self.register(n);
            },
            None => {},
        }
    }

    /// Mark every node of one chain kind as stopped.
    pub fn mark_all_stopped(&mut self, chain: ChainType)
        requires
            old(self).wf(),
        ensures
            final(self).wf(),
            final(self)@.dom() == old(self)@.dom(),
            forall|k: Seq<char>|
                #[trigger] old(self)@.contains_key(k) ==> final(self)@[k] == (if old(self)@[k].chain
                    == chain {
                    NodeInfoView { status: NodeStatus::Stopped, ..old(self)@[k] }
                } else {
                    old(self)@[k]
                }),
            final(self).registry_path() == old(self).registry_path(),
            final(self).backup_path() == old(self).backup_path(),
    {
        let ghost old_s = self.entries();
        let mut i: usize = 0;
        while i < self.nodes.len()
            invariant
                unique_ids(old_s),
                self.nodes@.len() == old_s.len(),
                i <= old_s.len(),
                forall|a: int|
                    0 <= a < old_s.len() ==> (#[trigger] self.entries()[a]) == (if a < i
                        && old_s[a].chain == chain {
                        NodeInfoView { status: NodeStatus::Stopped, ..old_s[a] }
                    } else {
                        old_s[a]
                    }),
                self.registry_path == old(self).registry_path,
                self.backup_path == old(self).backup_path,
            decreases old_s.len() - i,
        {
            if self.nodes[i].chain == chain {
                let ghost e0 = self.entries();
                let mut n = self.nodes[i].duplicate();
                n.status = NodeStatus::Stopped;
                self.nodes.set(i, n);
                proof {
                    assert(self.entries() =~= e0.update(i as int, n@));
                }
            }
            i = i + 1;
        }
        proof {
            let s = self.entries();
            assert forall|a: int, b: int|
                0 <= a < s.len() && 0 <= b < s.len() && (#[trigger] s[a]).node_id == (
                #[trigger] s[b]).node_id implies a == b by {
                assert(old_s[a].node_id == s[a].node_id);
                assert(old_s[b].node_id == s[b].node_id);
            }
            assert forall|k: Seq<char>|
                #![auto]
                node_map(s).contains_key(k) <==> node_map(old_s).contains_key(k) by {
                if node_map(s).contains_key(k) {
                    let i = choose|i: int| 0 <= i < s.len() && (#[trigger] s[i]).node_id == k;
                    assert(old_s[i].node_id == k);
                }
                if node_map(old_s).contains_key(k) {
                    let i = choose|i: int| 0 <= i < old_s.len() && (#[trigger] old_s[i]).node_id == k;
                    assert(s[i].node_id == k);
                }
            }
            assert(node_map(s).dom() =~= node_map(old_s).dom());
            assert forall|k: Seq<char>| #[trigger] node_map(old_s).contains_key(k) implies node_map(s)[k]
                == (if node_map(old_s)[k].chain == chain {
                NodeInfoView { status: NodeStatus::Stopped, ..node_map(old_s)[k] }
            } else {
                node_map(old_s)[k]
            }) by {
                lemma_node_map_key(old_s, k);
                let i = choose|i: int|
                    0 <= i < old_s.len() && (#[trigger] old_s[i]).node_id == k && node_map(old_s)[k]
                        == old_s[i];
                lemma_node_map_at(s, i);
            }
        }
    }
}


/// After registering `e`, looking up its node id gives `e`; after then
/// unregistering that id, the lookup gives nothing.
pub proof fn lemma_register_get_unregister(m: Map<Seq<char>, NodeInfoView>, e: NodeInfoView)
    ensures
        m.insert(e.node_id, e).contains_key(e.node_id),
        m.insert(e.node_id, e)[e.node_id] == e,
        !m.insert(e.node_id, e).remove(e.node_id).contains_key(e.node_id),
{
}

/// Registering an entry leaves every entry with another node id as it was.
pub proof fn lemma_register_keeps_others(
    m: Map<Seq<char>, NodeInfoView>,
    e: NodeInfoView,
    k: Seq<char>,
)
    requires
        k != e.node_id,
    ensures
        m.insert(e.node_id, e).contains_key(k) == m.contains_key(k),
        m.contains_key(k) ==> m.insert(e.node_id, e)[k] == m[k],
{
}

/// Clearing stopped entries removes exactly the entries whose status is
/// `Stopped` and leaves every other entry unchanged.
pub proof fn lemma_clear_stopped_exact(m: Map<Seq<char>, NodeInfoView>, k: Seq<char>)
    ensures
        select_map(m, Selector::NotStopped).contains_key(k) <==> (m.contains_key(k) && m[k].status
            != NodeStatus::Stopped),
        select_map(m, Selector::NotStopped).contains_key(k) ==> select_map(
            m,
            Selector::NotStopped,
        )[k] == m[k],
{
}

/// Loading with a primary file that does not parse gives the same entries
/// as loading the backup's contents as the primary file.
pub proof fn lemma_corrupt_primary_uses_backup(backup: RegistrySource, other: RegistrySource)
    requires
        backup is Parsed,
    ensures
        loaded_entries(RegistrySource::Corrupt, backup) == loaded_entries(backup, other),
{
}

} // verus!
