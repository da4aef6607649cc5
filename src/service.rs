//! The polling service's logic: one status entry per configured server,
//! the two sorted snapshots that are published together, and the answer to
//! a query by ordering.
use vstd::prelude::*;
use crate::resolve::{SocketCandidate, DEFAULT_PORT};
use crate::status::StatusResponse;
use std::sync::{Arc, RwLock};

verus! {

/// One configured server.
#[derive(Debug)]
pub struct ServerConfig {
    pub ip: String,
    pub port: Option<u16>,
    pub icon: String,
    pub name: String,
    pub description: String,
}

/// The configured list of servers.
#[derive(Debug)]
pub struct ServersConfig {
    pub servers: Vec<ServerConfig>,
}

/// The outcome of a successful probe.
#[derive(Debug)]
pub struct MinecraftServerInfo {
    pub host: String,
    /// The port contacted, which the handshake announced.
    pub port_effective: u16,
    /// The address that won the connect race.
    pub resolved: SocketCandidate,
    pub connect_ms: u128,
    pub rtt_ms: u128,
    pub version_name: String,
    pub version_protocol: i32,
    pub players_online: i32,
    pub players_max: i32,
    pub motd: String,
}

impl MinecraftServerInfo {
    /// The probe's result for `host` from the decoded status reply, the
    /// address that was contacted and the measured durations.
    pub fn from_status(host: &str, resolved: SocketCandidate, connect_ms: u128, rtt_ms: u128, status: StatusResponse) -> (r: Self)
        ensures
            r.host@ == host@,
            r.port_effective == resolved.port,
            r.resolved == resolved,
            r.connect_ms == connect_ms,
            r.rtt_ms == rtt_ms,
            r.version_name == status.version.name,
            r.version_protocol == status.version.protocol,
            r.players_online == status.players.online,
            r.players_max == status.players.max,
            r.motd == status.motd,
    {
        MinecraftServerInfo {
            host: host.to_owned(),
            port_effective: resolved.port,
            resolved,
            connect_ms,
            rtt_ms,
            version_name: status.version.name,
            version_protocol: status.version.protocol,
            players_online: status.players.online,
            players_max: status.players.max,
            motd: status.motd,
        }
    }
}

/// A published entry: the configured identity and the probe's outcome.
#[derive(Debug)]
pub struct MinecraftServerStatus {
    pub ip: String,
    pub port: i32,
    pub icon: String,
    pub name: String,
    pub description: String,
    pub is_online: bool,
    pub version_name: String,
    pub players_online: i32,
    pub players_max: i32,
}

impl MinecraftServerStatus {
    /// A copy of this entry.
    pub fn duplicate(&self) -> (r: Self)
        ensures
            r == *self,
    {
        MinecraftServerStatus {
            ip: self.ip.clone(),
            port: self.port,
            icon: self.icon.clone(),
            name: self.name.clone(),
            description: self.description.clone(),
            is_online: self.is_online,
            version_name: self.version_name.clone(),
            players_online: self.players_online,
            players_max: self.players_max,
        }
    }
}

/// Whether `st` is the entry for `cfg` given the probe's outcome (`None`:
/// the probe failed, and the server is offline on the default port, whatever
/// port was configured). Player counts are published as the server reported
/// them: the protocol does not promise `players_online <= players_max`, and
/// no count is altered to make it hold.
pub open spec fn status_for(cfg: ServerConfig, outcome: Option<MinecraftServerInfo>, st: MinecraftServerStatus) -> bool {
    &&& st.ip@ == cfg.ip@
    &&& st.icon@ == cfg.icon@
    &&& st.name@ == cfg.name@
    &&& st.description@ == cfg.description@
    &&& match outcome {
        Some(info) => {
            &&& st.is_online
            &&& st.port == info.port_effective as i32
            &&& st.version_name@ == info.version_name@
            &&& st.players_online == info.players_online
            &&& st.players_max == info.players_max
        },
        None => {
            &&& !st.is_online
            &&& st.port == DEFAULT_PORT as i32
            &&& st.version_name@ == Seq::<char>::empty()
            &&& st.players_online == 0
            &&& st.players_max == 0
        },
    }
}

/// The entry for `cfg` given the probe's outcome.
pub fn server_status(cfg: &ServerConfig, outcome: &Option<MinecraftServerInfo>) -> (r: MinecraftServerStatus)
    ensures
        status_for(*cfg, *outcome, r),
{
    match outcome {
        Some(info) => MinecraftServerStatus {
            ip: cfg.ip.clone(),
            port: info.port_effective as i32,
            icon: cfg.icon.clone(),
            name: cfg.name.clone(),
            description: cfg.description.clone(),
            is_online: true,
            version_name: info.version_name.clone(),
            players_online: info.players_online,
            players_max: info.players_max,
        },
        None => MinecraftServerStatus {
            ip: cfg.ip.clone(),
            port: DEFAULT_PORT as i32,
            icon: cfg.icon.clone(),
            name: cfg.name.clone(),
            description: cfg.description.clone(),
            is_online: false,
            version_name: String::new(),
            players_online: 0,
            players_max: 0,
        },
    }
}

/// `x` put into the sorted `s` after every entry with as many players or fewer.
pub open spec fn sorted_insert(s: Seq<MinecraftServerStatus>, x: MinecraftServerStatus) -> Seq<MinecraftServerStatus>
    decreases s.len(),
{
    if s.len() == 0 {
        seq![x]
    } else if x.players_online < s.last().players_online {
        sorted_insert(s.drop_last(), x).push(s.last())
    } else {
        s.push(x)
    }
}

/// The stable sort of `s` by players online, fewest first: entries with as
/// many players keep their order.
pub open spec fn sort_by_players(s: Seq<MinecraftServerStatus>) -> Seq<MinecraftServerStatus>
    decreases s.len(),
{
    if s.len() == 0 {
        Seq::empty()
    } else {
        sorted_insert(sort_by_players(s.drop_last()), s.last())
    }
}

/// Whether the entries of `s` go by players online, fewest first.
pub open spec fn sorted_by_players(s: Seq<MinecraftServerStatus>) -> bool {
    forall|i: int, j: int| 0 <= i <= j < s.len() ==> #[trigger] s[i].players_online <= #[trigger] s[j].players_online
}

proof fn lemma_insert_contents(s: Seq<MinecraftServerStatus>, x: MinecraftServerStatus)
    ensures
        sorted_insert(s, x).len() == s.len() + 1,
        sorted_insert(s, x).to_multiset() == s.to_multiset().insert(x),
    decreases s.len(),
{
    broadcast use vstd::seq_lib::to_multiset_build;

    if s.len() > 0 && x.players_online < s.last().players_online {
        let d = s.drop_last();
        lemma_insert_contents(d, x);
        assert(d.push(s.last()) =~= s);
        let si = sorted_insert(d, x);
        assert(sorted_insert(s, x) == si.push(s.last()));
        assert(si.push(s.last()).to_multiset() =~= si.to_multiset().insert(s.last()));
        assert(d.push(s.last()).to_multiset() =~= d.to_multiset().insert(s.last()));
        assert(sorted_insert(s, x).to_multiset() =~= s.to_multiset().insert(x));
    } else if s.len() == 0 {
        assert(sorted_insert(s, x) =~= s.push(x));
    } else {
        assert(sorted_insert(s, x) == s.push(x));
    }
}

proof fn lemma_insert_bounded(s: Seq<MinecraftServerStatus>, x: MinecraftServerStatus, b: i32)
    requires
        forall|k: int| 0 <= k < s.len() ==> #[trigger] s[k].players_online <= b,
        x.players_online <= b,
    ensures
        forall|k: int| 0 <= k < sorted_insert(s, x).len() ==> #[trigger] sorted_insert(s, x)[k].players_online <= b,
    decreases s.len(),
{
    lemma_insert_contents(s, x);
    let r = sorted_insert(s, x);
    if s.len() > 0 && x.players_online < s.last().players_online {
        let d = s.drop_last();
        assert forall|k: int| 0 <= k < d.len() implies #[trigger] d[k].players_online <= b by {
            assert(s[k] == d[k]);
        }
        lemma_insert_bounded(d, x, b);
        assert(r == sorted_insert(d, x).push(s.last()));
        assert forall|k: int| 0 <= k < r.len() implies #[trigger] r[k].players_online <= b by {
            if k < r.len() - 1 {
                assert(r[k] == sorted_insert(d, x)[k]);
            }
        }
    } else if s.len() == 0 {
        assert(r =~= seq![x]);
    } else {
        assert(r == s.push(x));
        assert forall|k: int| 0 <= k < r.len() implies #[trigger] r[k].players_online <= b by {
            if k < s.len() {
                assert(r[k] == s[k]);
            }
        }
    }
}

proof fn lemma_insert_sorted(s: Seq<MinecraftServerStatus>, x: MinecraftServerStatus)
    requires
        sorted_by_players(s),
    ensures
        sorted_by_players(sorted_insert(s, x)),
    decreases s.len(),
{
    lemma_insert_contents(s, x);
    if s.len() > 0 && x.players_online < s.last().players_online {
        let d = s.drop_last();
        lemma_insert_sorted(d, x);
        assert forall|k: int| 0 <= k < d.len() implies #[trigger] d[k].players_online <= s.last().players_online by {
            assert(s[k] == d[k]);
        }
        lemma_insert_bounded(d, x, s.last().players_online);
    }
}

/// The ascending order is sorted by players online, has as many entries as
/// it was given, and holds the same entries.
pub proof fn lemma_sort_by_players(s: Seq<MinecraftServerStatus>)
    ensures
        sorted_by_players(sort_by_players(s)),
        sort_by_players(s).len() == s.len(),
        sort_by_players(s).to_multiset() == s.to_multiset(),
    decreases s.len(),
{
    broadcast use vstd::seq_lib::to_multiset_build;

    if s.len() > 0 {
        lemma_sort_by_players(s.drop_last());
        lemma_insert_sorted(sort_by_players(s.drop_last()), s.last());
        lemma_insert_contents(sort_by_players(s.drop_last()), s.last());
        assert(s.drop_last().push(s.last()) =~= s);
        assert(s.drop_last().push(s.last()).to_multiset() =~= s.drop_last().to_multiset().insert(s.last()));
        assert(sort_by_players(s).to_multiset() =~= s.to_multiset());
    } else {
        assert(s =~= Seq::<MinecraftServerStatus>::empty());
    }
}

/// Inserts `x` into `v` as `sorted_insert` says.
pub fn insert_by_players(v: &mut Vec<MinecraftServerStatus>, x: MinecraftServerStatus)
    ensures
        final(v)@ == sorted_insert(old(v)@, x),
{
    let ghost s = v@;
    let mut p: usize = v.len();
    assert(s.subrange(0, p as int) =~= s);
    assert(sorted_insert(s, x) =~= sorted_insert(s.subrange(0, p as int), x) + s.subrange(p as int, s.len() as int));
    while p > 0 && v[p - 1].players_online > x.players_online
        invariant
            v@ == s,
            p <= s.len(),
            sorted_insert(s, x) == sorted_insert(s.subrange(0, p as int), x) + s.subrange(p as int, s.len() as int),
        decreases p,
    {
        assert(s.subrange(0, p as int).drop_last() =~= s.subrange(0, p - 1));
        assert(s.subrange(p - 1, s.len() as int) =~= seq![s[p - 1]] + s.subrange(p as int, s.len() as int));
        assert(sorted_insert(s.subrange(0, p as int), x) == sorted_insert(s.subrange(0, p - 1), x).push(s[p - 1]));
        assert(sorted_insert(s.subrange(0, p - 1), x).push(s[p - 1]) + s.subrange(p as int, s.len() as int)
            =~= sorted_insert(s.subrange(0, p - 1), x) + s.subrange(p - 1, s.len() as int));
        p = p - 1;
    }
    v.insert(p, x);
    assert(v@ =~= sorted_insert(s, x));
}


/// The entries of one poll cycle, one per configured server, in the
/// configured order.
pub fn build_statuses(servers: &Vec<ServerConfig>, outcomes: &Vec<Option<MinecraftServerInfo>>) -> (r: Vec<MinecraftServerStatus>)
    requires
        servers@.len() == outcomes@.len(),
    ensures
        r@.len() == servers@.len(),
        forall|i: int| 0 <= i < r@.len() ==> status_for(servers@[i], outcomes@[i], #[trigger] r@[i]),
{
    let mut out: Vec<MinecraftServerStatus> = Vec::new();
    let mut i: usize = 0;
    while i < servers.len()
        invariant
            servers@.len() == outcomes@.len(),
            i <= servers@.len(),
            out@.len() == i,
            forall|k: int| 0 <= k < i ==> status_for(servers@[k], outcomes@[k], #[trigger] out@[k]),
        decreases servers.len() - i,
    {
        let st = server_status(&servers[i], &outcomes[i]);
        out.push(st);
        i = i + 1;
    }
    out
}

/// The order of a server list.
#[derive(Debug, Clone, Copy, PartialEq, Eq, Structural)]
pub enum Ordering {
    /// Most players first.
    Player,
    /// Fewest players first.
    PlayerReverse,
}

/// An entry of a served server list.
#[derive(Debug)]
pub struct Server {
    pub port: i64,
    pub name: String,
    pub version_name: String,
    pub players_max: i64,
    pub icon: String,
    pub description: String,
    pub ip: String,
    pub players_online: i64,
}

/// Whether `sv` serves the entry `st`.
pub open spec fn server_of(st: MinecraftServerStatus, sv: Server) -> bool {
    &&& sv.port == st.port as i64
    &&& sv.name@ == st.name@
    &&& sv.version_name@ == st.version_name@
    &&& sv.players_max == st.players_max as i64
    &&& sv.icon@ == st.icon@
    &&& sv.description@ == st.description@
    &&& sv.ip@ == st.ip@
    &&& sv.players_online == st.players_online as i64
}

/// The served form of an entry.
pub fn to_server(st: &MinecraftServerStatus) -> (r: Server)
    ensures
        server_of(*st, r),
{
    Server {
        port: st.port as i64,
        name: st.name.clone(),
        version_name: st.version_name.clone(),
        players_max: st.players_max as i64,
        icon: st.icon.clone(),
        description: st.description.clone(),
        ip: st.ip.clone(),
        players_online: st.players_online as i64,
    }
}

/// The two snapshots of a poll cycle: the entries by players online, fewest
/// first (a stable sort), and the exact reverse of that, most first. The two
/// are built and replaced together, so no one ever holds one without the other.
pub struct Snapshots {
    ascending: Vec<MinecraftServerStatus>,
    descending: Vec<MinecraftServerStatus>,
}

impl Snapshots {
    /// Holds of every value of the type: the descending snapshot is the
    /// reverse of the ascending one.
    #[verifier::type_invariant]
    spec fn dual(&self) -> bool {
        self.descending@ == self.ascending@.reverse()
    }

    /// Fewest players first.
    pub closed spec fn ascending_view(&self) -> Seq<MinecraftServerStatus> {
        self.ascending@
    }

    /// Most players first.
    pub closed spec fn descending_view(&self) -> Seq<MinecraftServerStatus> {
        self.descending@
    }

    /// The snapshots before any poll cycle has completed: both empty.
    pub fn empty() -> (r: Snapshots)
        ensures
            r.ascending_view() == Seq::<MinecraftServerStatus>::empty(),
            r.descending_view() == Seq::<MinecraftServerStatus>::empty(),
    {
        let r = Snapshots { ascending: Vec::new(), descending: Vec::new() };
        assert(r.descending@ =~= r.ascending@.reverse());
        r
    }

    /// The snapshots of a cycle's entries, taken in the configured order.
    pub fn from_statuses(statuses: &Vec<MinecraftServerStatus>) -> (r: Snapshots)
        ensures
            r.ascending_view() == sort_by_players(statuses@),
            r.descending_view() == sort_by_players(statuses@).reverse(),
            sorted_by_players(r.ascending_view()),
            r.ascending_view().len() == statuses@.len(),
            r.descending_view().len() == statuses@.len(),
    {
        proof {
            lemma_sort_by_players(statuses@);
        }
        let mut asc: Vec<MinecraftServerStatus> = Vec::new();
        let mut i: usize = 0;
        while i < statuses.len()
            invariant
                i <= statuses@.len(),
                asc@ == sort_by_players(statuses@.subrange(0, i as int)),
            decreases statuses.len() - i,
        {
            let x = statuses[i].duplicate();
            insert_by_players(&mut asc, x);
            assert(statuses@.subrange(0, i + 1).drop_last() =~= statuses@.subrange(0, i as int));
            i = i + 1;
        }
        assert(statuses@.subrange(0, i as int) =~= statuses@);
        let desc = reversed(&asc);
        Snapshots { ascending: asc, descending: desc }
    }

    /// The entries fewest players first.
    pub fn ascending(&self) -> (r: &Vec<MinecraftServerStatus>)
        ensures
            r@ == self.ascending_view(),
            self.descending_view() == self.ascending_view().reverse(),
    {
        proof {
            use_type_invariant(self);
        }
        &self.ascending
    }

    /// The entries most players first.
    pub fn descending(&self) -> (r: &Vec<MinecraftServerStatus>)
        ensures
            r@ == self.descending_view(),
            self.descending_view() == self.ascending_view().reverse(),
    {
        proof {
            use_type_invariant(self);
        }
        &self.descending
    }

    /// The served list in the order asked for: `Player` reads the descending
    /// snapshot, `PlayerReverse` the ascending one.
    pub fn server_list(&self, ordering: Ordering) -> (r: Vec<Server>)
        ensures
            r@.len() == snapshot_for(*self, ordering).len(),
            forall|i: int| 0 <= i < r@.len() ==> server_of(snapshot_for(*self, ordering)[i], #[trigger] r@[i]),
            self.descending_view() == self.ascending_view().reverse(),
    {
        proof {
            use_type_invariant(self);
        }
        let src = match ordering {
            Ordering::Player => &self.descending,
            Ordering::PlayerReverse => &self.ascending,
        };
        let mut out: Vec<Server> = Vec::new();
        let mut i: usize = 0;
        while i < src.len()
            invariant
                src@ == snapshot_for(*self, ordering),
                i <= src@.len(),
                out@.len() == i,
                forall|k: int| 0 <= k < i ==> server_of(src@[k], #[trigger] out@[k]),
            decreases src.len() - i,
        {
            out.push(to_server(&src[i]));
            i = i + 1;
        }
        out
    }
}

/// The snapshot that a query by `ordering` reads.
pub open spec fn snapshot_for(s: Snapshots, ordering: Ordering) -> Seq<MinecraftServerStatus> {
    match ordering {
        Ordering::Player => s.descending_view(),
        Ordering::PlayerReverse => s.ascending_view(),
    }
}

/// Copies of the entries of `v`, last first.
fn reversed(v: &Vec<MinecraftServerStatus>) -> (r: Vec<MinecraftServerStatus>)
    ensures
        r@ == v@.reverse(),
{
    let n = v.len();
    let mut out: Vec<MinecraftServerStatus> = Vec::new();
    let mut k: usize = 0;
    while k < n
        invariant
            n == v@.len(),
            k <= n,
            out@.len() == k,
            forall|j: int| 0 <= j < k ==> #[trigger] out@[j] == v@[n - 1 - j],
        decreases n - k,
    {
        out.push(v[n - 1 - k].duplicate());
        k = k + 1;
    }
    assert(out@ =~= v@.reverse());
    out
}


/// std's `RwLock`, held as an opaque value: what it holds is reached only
/// through the three functions below.
#[verifier::external_type_specification]
#[verifier::external_body]
#[verifier::reject_recursive_types(T)]
pub struct ExRwLock<T: ?Sized>(RwLock<T>);

/// Relies on `RwLock::new`: a lock that holds `value`.
#[verifier::external_body]
fn new_snapshot_cell(value: Arc<Snapshots>) -> RwLock<Arc<Snapshots>> {
    RwLock::new(value)
}

/// Relies on `RwLock::read`: a shared handle on the value held now. A
/// poisoned lock still holds a whole value, which is handed out.
#[verifier::external_body]
fn load_snapshots(cell: &RwLock<Arc<Snapshots>>) -> Arc<Snapshots> {
    match cell.read() {
        Ok(guard) => Arc::clone(&guard),
        Err(poisoned) => Arc::clone(&poisoned.into_inner()),
    }
}

/// Relies on `RwLock::write`: replaces the value held by `value`, whole.
#[verifier::external_body]
fn store_snapshots(cell: &RwLock<Arc<Snapshots>>, value: Arc<Snapshots>) {
    match cell.write() {
        Ok(mut guard) => *guard = value,
        Err(poisoned) => *poisoned.into_inner() = value,
    }
}

/// The status service: the snapshots that the last completed poll cycle
/// published, shared between the poller and the readers.
pub struct Service {
    snapshots: RwLock<Arc<Snapshots>>,
}

impl Service {
    /// A service that has published nothing yet: both snapshots are empty.
    pub fn new() -> Service {
        Service { snapshots: new_snapshot_cell(Arc::new(Snapshots::empty())) }
    }

    /// The pair published last. Readers never block one another, and get
    /// the two snapshots of one cycle together.
    pub fn current(&self) -> (r: Arc<Snapshots>)
        ensures
            r.descending_view() == r.ascending_view().reverse(),
    {
        let r = load_snapshots(&self.snapshots);
        proof {
            use_type_invariant(&*r);
        }
        r
    }

    /// Publishes the snapshots of the poll cycle over `servers` with the
    /// probes' outcomes, replacing the pair that was there as one value.
    /// Gives the pair it stored: one entry per configured server, sorted
    /// stably by players online, and its reverse.
    pub fn publish_cycle(&self, servers: &Vec<ServerConfig>, outcomes: &Vec<Option<MinecraftServerInfo>>) -> (r: Arc<Snapshots>)
        requires
            servers@.len() == outcomes@.len(),
        ensures
            exists|st: Seq<MinecraftServerStatus>|
                st.len() == servers@.len() && (forall|i: int|
                    0 <= i < st.len() ==> status_for(servers@[i], outcomes@[i], #[trigger] st[i]))
                    && #[trigger] sort_by_players(st) == r.ascending_view(),
            r.descending_view() == r.ascending_view().reverse(),
            r.ascending_view().len() == servers@.len(),
            sorted_by_players(r.ascending_view()),
    {
        let statuses = build_statuses(servers, outcomes);
        let snapshots = Arc::new(Snapshots::from_statuses(&statuses));
        store_snapshots(&self.snapshots, Arc::clone(&snapshots));
        snapshots
    }
}

/// The query interface of the server list.
pub trait API {
    /// The current server list in the order asked for: each entry of one
    /// whole snapshot, in order, taken from a pair whose two orders are the
    /// reverse of each other.
    fn get_server_list(&self, ordering: Ordering) -> (r: Vec<Server>)
        ensures
            exists|s: Snapshots|
                s.descending_view() == s.ascending_view().reverse() && r@.len() == #[trigger] snapshot_for(
                    s,
                    ordering,
                ).len() && forall|i: int|
                    0 <= i < r@.len() ==> server_of(snapshot_for(s, ordering)[i], #[trigger] r@[i]),
    ;
}

/// The query interface over a service.
pub struct ApiServer {
    service: Arc<Service>,
}

impl ApiServer {
    /// The query interface over `service`.
    pub fn new(service: Arc<Service>) -> (r: ApiServer)
        ensures
            r.service() == service,
    {
        ApiServer { service }
    }

    /// The service read from.
    pub closed spec fn service(&self) -> Arc<Service> {
        self.service
    }
}

impl API for ApiServer {
    fn get_server_list(&self, ordering: Ordering) -> (r: Vec<Server>) {
        let snapshots = self.service.current();
        let r = snapshots.server_list(ordering);
        assert(snapshot_for(*snapshots, ordering).len() == r@.len());
        r
    }
}

} // verus!
