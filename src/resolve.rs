//! Choosing the socket candidates of a server from DNS answers, SRV records
//! first when no port is configured. The lookups themselves are done by the
//! caller: a `CandidateSearch` says which lookup to make next and takes its
//! answer, until it finishes with the candidates or an error.
use vstd::prelude::*;
use vstd::string::*;

verus! {

/// An IP address: IPv4 as its 32 bits, IPv6 as its 128 bits.
#[derive(Debug, Clone, Copy, PartialEq, Eq, Structural)]
pub enum IpAddress {
    V4(u32),
    V6(u128),
}

/// An address and port to connect to.
#[derive(Debug, Clone, Copy, PartialEq, Eq, Structural)]
pub struct SocketCandidate {
    pub ip: IpAddress,
    pub port: u16,
}

/// The port used when none is configured and SRV gives none.
pub const DEFAULT_PORT: u16 = 25565;

/// One SRV record of `_minecraft._tcp.<host>`.
#[derive(Debug)]
pub struct SrvRecord {
    pub priority: u16,
    /// Kept as received; selection does not weigh targets, since every
    /// target of the lowest priority is raced.
    pub weight: u16,
    pub port: u16,
    pub target: String,
}

/// Why no candidates came out.
#[derive(Debug, Clone, Copy, PartialEq, Eq, Structural)]
pub enum ResolveError {
    /// An address lookup failed.
    LookupFailed,
    /// The lookups gave no usable address.
    NoCandidates,
}

/// The name whose SRV records are asked for: `_minecraft._tcp.<host>.`.
pub open spec fn srv_name(host: Seq<char>) -> Seq<char> {
    "_minecraft._tcp."@ + host + "."@
}

/// A DNS name without its trailing dot, if it has one.
pub open spec fn strip_dot(s: Seq<char>) -> Seq<char> {
    if s.len() > 0 && s.last() == '.' {
        s.drop_last()
    } else {
        s
    }
}

/// Each address of `ips` with `port`, IPv6 ones left out under `v4_only`.
pub open spec fn pairs(ips: Seq<IpAddress>, port: u16, v4_only: bool) -> Seq<SocketCandidate>
    decreases ips.len(),
{
    if ips.len() == 0 {
        Seq::empty()
    } else {
        let rest = pairs(ips.drop_last(), port, v4_only);
        if v4_only && ips.last() is V6 {
            rest
        } else {
            rest.push(SocketCandidate { ip: ips.last(), port })
        }
    }
}

/// The smallest priority among the records (of a non-empty sequence).
pub open spec fn min_priority(rs: Seq<SrvRecord>) -> u16
    decreases rs.len(),
{
    if rs.len() <= 1 {
        rs[0].priority
    } else {
        let m = min_priority(rs.drop_last());
        if rs.last().priority < m {
            rs.last().priority
        } else {
            m
        }
    }
}

/// Target (without trailing dot) and port of each record of priority `m`, in order.
pub open spec fn targets_of(rs: Seq<SrvRecord>, m: u16) -> Seq<(Seq<char>, u16)>
    decreases rs.len(),
{
    if rs.len() == 0 {
        Seq::empty()
    } else {
        let rest = targets_of(rs.drop_last(), m);
        if rs.last().priority == m {
            rest.push((strip_dot(rs.last().target@), rs.last().port))
        } else {
            rest
        }
    }
}

/// `_minecraft._tcp.<host>.`, the name to ask SRV records for.
pub fn srv_query_name(host: &str) -> (r: String)
    ensures
        r@ == srv_name(host@),
{
    let prefix = "_minecraft._tcp.".to_owned();
    let with_host = prefix.concat(host);
    with_host.concat(".")
}

/// `name` without its trailing dot.
pub fn strip_trailing_dot(name: &str) -> (r: String)
    ensures
        r@ == strip_dot(name@),
{
    let n = name.unicode_len();
    if n > 0 && name.get_char(n - 1) == '.' {
        name.substring_char(0, n - 1).to_owned()
    } else {
        name.to_owned()
    }
}

/// Appends each address of `ips` with `port`, leaving out IPv6 under `v4_only`.
pub fn pair_with_port(ips: &Vec<IpAddress>, port: u16, v4_only: bool, out: &mut Vec<SocketCandidate>)
    ensures
        final(out)@ == old(out)@ + pairs(ips@, port, v4_only),
{
    let mut i: usize = 0;
    while i < ips.len()
        invariant
            i <= ips@.len(),
            out@ == old(out)@ + pairs(ips@.subrange(0, i as int), port, v4_only),
        decreases ips.len() - i,
    {
        let ip = ips[i];
        let ghost before = out@;
        let keep = match ip {
            IpAddress::V6(_) => !v4_only,
            IpAddress::V4(_) => true,
        };
        if keep {
            out.push(SocketCandidate { ip, port });
        }
        assert(ips@.subrange(0, i + 1).drop_last() =~= ips@.subrange(0, i as int));
        assert(out@ =~= old(out)@ + pairs(ips@.subrange(0, i + 1), port, v4_only));
        i = i + 1;
    }
    assert(ips@.subrange(0, i as int) =~= ips@);
}

/// The lowest priority among `records`, which must not be empty.
fn lowest_priority(records: &Vec<SrvRecord>) -> (r: u16)
    requires
        records@.len() > 0,
    ensures
        r == min_priority(records@),
{
    let mut m = records[0].priority;
    let mut i: usize = 1;
    while i < records.len()
        invariant
            1 <= i <= records@.len(),
            m == min_priority(records@.subrange(0, i as int)),
        decreases records.len() - i,
    {
        assert(records@.subrange(0, i + 1).drop_last() =~= records@.subrange(0, i as int));
        if records[i].priority < m {
            m = records[i].priority;
        }
        i = i + 1;
    }
    assert(records@.subrange(0, i as int) =~= records@);
    m
}

/// The targets to look up: those of the records of lowest priority, all of
/// them, in the order given, without trailing dots, with their ports.
pub fn lowest_priority_targets(records: &Vec<SrvRecord>) -> (r: Vec<(String, u16)>)
    requires
        records@.len() > 0,
    ensures
        targets_view(r@) == targets_of(records@, min_priority(records@)),
{
    let m = lowest_priority(records);
    let mut out: Vec<(String, u16)> = Vec::new();
    let mut i: usize = 0;
    while i < records.len()
        invariant
            i <= records@.len(),
            m == min_priority(records@),
            targets_view(out@) == targets_of(records@.subrange(0, i as int), m),
        decreases records.len() - i,
    {
        assert(records@.subrange(0, i + 1).drop_last() =~= records@.subrange(0, i as int));
        if records[i].priority == m {
            let t = strip_trailing_dot(records[i].target.as_str());
            out.push((t, records[i].port));
            assert(targets_view(out@) =~= targets_of(records@.subrange(0, i + 1), m));
        }
        i = i + 1;
    }
    assert(records@.subrange(0, i as int) =~= records@);
    out
}

/// The characters and port of each target.
pub open spec fn targets_view(t: Seq<(String, u16)>) -> Seq<(Seq<char>, u16)> {
    t.map_values(|x: (String, u16)| (x.0@, x.1))
}


/// Where a search stands: which answer it waits for, or finished.
#[derive(Debug, Clone, Copy, PartialEq, Eq, Structural)]
pub enum SearchStage {
    /// Waits for the addresses of the host, with the configured port.
    Direct,
    /// Waits for the SRV records.
    AwaitSrv,
    /// Waits for the addresses of the current SRV target.
    AwaitTarget,
    /// Waits for the addresses of the host, with the default port.
    Fallback,
    /// Finished.
    Done,
}

/// What a search is, as values.
pub ghost struct SearchView {
    pub host: Seq<char>,
    pub port: Option<u16>,
    pub v4_only: bool,
    pub stage: SearchStage,
    pub targets: Seq<(Seq<char>, u16)>,
    pub next: nat,
    pub found: Seq<SocketCandidate>,
}

/// What a search asks for next, as values.
pub ghost enum ActionView {
    LookupSrv(Seq<char>),
    LookupIp(Seq<char>),
    Finish(Result<Seq<SocketCandidate>, ResolveError>),
}

/// What a search asks its caller to do next.
#[derive(Debug)]
pub enum ResolveAction {
    /// Look up the SRV records of this name and pass them to `on_srv`.
    LookupSrv(String),
    /// Look up the addresses of this name and pass them to `on_ips`.
    LookupIp(String),
    /// The search is over.
    Finish(Result<Vec<SocketCandidate>, ResolveError>),
}

impl View for ResolveAction {
    type V = ActionView;

    open spec fn view(&self) -> ActionView {
        match self {
            ResolveAction::LookupSrv(n) => ActionView::LookupSrv(n@),
            ResolveAction::LookupIp(n) => ActionView::LookupIp(n@),
            ResolveAction::Finish(Ok(v)) => ActionView::Finish(Ok(v@)),
            ResolveAction::Finish(Err(e)) => ActionView::Finish(Err(*e)),
        }
    }
}

/// The end of a search with what was found: an error when it is empty.
pub open spec fn finish(found: Seq<SocketCandidate>) -> ActionView {
    if found.len() > 0 {
        ActionView::Finish(Ok(found))
    } else {
        ActionView::Finish(Err(ResolveError::NoCandidates))
    }
}

/// A search's start: with a port, the host's addresses are asked for; without
/// one, the SRV records.
pub open spec fn search_start(host: Seq<char>, port: Option<u16>, v4_only: bool) -> (SearchView, ActionView) {
    let s = SearchView {
        host,
        port,
        v4_only,
        stage: if port is Some { SearchStage::Direct } else { SearchStage::AwaitSrv },
        targets: Seq::empty(),
        next: 0,
        found: Seq::empty(),
    };
    match port {
        Some(_) => (s, ActionView::LookupIp(host)),
        None => (s, ActionView::LookupSrv(srv_name(host))),
    }
}

/// The SRV answer (`None`: the lookup failed). With records, the targets of
/// lowest priority are looked up in turn; else the host, with the default port.
pub open spec fn search_on_srv(s: SearchView, records: Option<Seq<SrvRecord>>) -> (SearchView, ActionView) {
    match records {
        Some(rs) if rs.len() > 0 => {
            let t = targets_of(rs, min_priority(rs));
            (SearchView { stage: SearchStage::AwaitTarget, targets: t, next: 0, ..s }, ActionView::LookupIp(t[0].0))
        },
        _ => (SearchView { stage: SearchStage::Fallback, ..s }, ActionView::LookupIp(s.host)),
    }
}

/// An address answer (`None`: the lookup failed). For an SRV target, a
/// failed lookup is one without addresses: the search goes on with the next
/// target, and falls back to the host with the default port when the targets
/// gave nothing. For the host itself, a failed lookup ends the search.
pub open spec fn search_on_ips(s: SearchView, ips: Option<Seq<IpAddress>>) -> (SearchView, ActionView) {
    if s.stage == SearchStage::AwaitTarget {
        // A target whose lookup failed counts as a target without addresses.
        let got = match ips {
            Some(v) => v,
            None => Seq::empty(),
        };
        let f = s.found + pairs(got, s.targets[s.next as int].1, s.v4_only);
        let n = s.next + 1;
        if n < s.targets.len() {
            (SearchView { next: n, found: f, ..s }, ActionView::LookupIp(s.targets[n as int].0))
        } else if f.len() > 0 {
            (SearchView { stage: SearchStage::Done, next: n, found: f, ..s }, ActionView::Finish(Ok(f)))
        } else {
            (SearchView { stage: SearchStage::Fallback, next: n, found: f, ..s }, ActionView::LookupIp(s.host))
        }
    } else {
        match ips {
            None => (SearchView { stage: SearchStage::Done, ..s }, ActionView::Finish(Err(ResolveError::LookupFailed))),
            Some(ips) => {
                let port = if s.stage == SearchStage::Direct && s.port is Some {
                    s.port->0
                } else {
                    DEFAULT_PORT
                };
                let f = pairs(ips, port, s.v4_only);
                (SearchView { stage: SearchStage::Done, found: f, ..s }, finish(f))
            },
        }
    }
}

/// The view of an optional answer.
pub open spec fn answer_view<T>(a: Option<Vec<T>>) -> Option<Seq<T>> {
    match a {
        Some(v) => Some(v@),
        None => None,
    }
}

/// The search for the socket candidates of one configured server.
pub struct CandidateSearch {
    host: String,
    port: Option<u16>,
    v4_only: bool,
    stage: SearchStage,
    targets: Vec<(String, u16)>,
    next: usize,
    found: Vec<SocketCandidate>,
}

impl View for CandidateSearch {
    type V = SearchView;

    closed spec fn view(&self) -> SearchView {
        SearchView {
            host: self.host@,
            port: self.port,
            v4_only: self.v4_only,
            stage: self.stage,
            targets: targets_view(self.targets@),
            next: self.next as nat,
            found: self.found@,
        }
    }
}

impl CandidateSearch {
    /// Well-formed: while targets are looked up, the current one exists.
    pub open spec fn wf(&self) -> bool {
        self@.stage == SearchStage::AwaitTarget ==> self@.next < self@.targets.len()
    }

    /// Starts the search for `host`, with `port` if one is configured;
    /// `v4_only` leaves IPv6 addresses out.
    pub fn new(host: &str, port: Option<u16>, v4_only: bool) -> (r: (CandidateSearch, ResolveAction))
        ensures
            r.0.wf(),
            (r.0@, r.1@) == search_start(host@, port, v4_only),
    {
        let s = CandidateSearch {
            host: host.to_owned(),
            port,
            v4_only,
            stage: if port.is_some() { SearchStage::Direct } else { SearchStage::AwaitSrv },
            targets: Vec::new(),
            next: 0,
            found: Vec::new(),
        };
        assert(targets_view(s.targets@) =~= Seq::empty());
        let action = match port {
            Some(_) => ResolveAction::LookupIp(host.to_owned()),
            None => ResolveAction::LookupSrv(srv_query_name(host)),
        };
        (s, action)
    }

    /// Where the search stands.
    pub fn stage(&self) -> (r: SearchStage)
        ensures
            r == self@.stage,
    {
        self.stage
    }

    /// Takes the SRV answer; `None` when the lookup failed.
    pub fn on_srv(&mut self, records: Option<Vec<SrvRecord>>) -> (r: ResolveAction)
        requires
            old(self).wf(),
            old(self)@.stage == SearchStage::AwaitSrv,
        ensures
            final(self).wf(),
            (final(self)@, r@) == search_on_srv(old(self)@, answer_view(records)),
    {
        match records {
            Some(rs) => {
                if rs.len() > 0 {
                    let t = lowest_priority_targets(&rs);
                    proof {
                        lemma_lowest_targets_nonempty(rs@);
                    }
                    let first = t[0].0.clone();
                    self.targets = t;
                    self.next = 0;
                    self.stage = SearchStage::AwaitTarget;
                    return ResolveAction::LookupIp(first);
                }
            },
            None => {},
        }
        self.stage = SearchStage::Fallback;
        ResolveAction::LookupIp(self.host.clone())
    }

    /// Takes the answer to the last address lookup; `None` when it failed.
    pub fn on_ips(&mut self, ips: Option<Vec<IpAddress>>) -> (r: ResolveAction)
        requires
            old(self).wf(),
            old(self)@.stage == SearchStage::Direct || old(self)@.stage == SearchStage::AwaitTarget
                || old(self)@.stage == SearchStage::Fallback,
        ensures
            final(self).wf(),
            (final(self)@, r@) == search_on_ips(old(self)@, answer_view(ips)),
    {
        if self.stage == SearchStage::AwaitTarget {
            let ips = match ips {
                Some(v) => v,
                None => Vec::new(),
            };
            assert(targets_view(self.targets@).len() == self.targets@.len());
            let next = self.next;
            let count = self.targets.len();
            assert(next < count);
            let port = self.targets[next].1;
            pair_with_port(&ips, port, self.v4_only, &mut self.found);
            self.next = next + 1;
            if self.next < self.targets.len() {
                return ResolveAction::LookupIp(self.targets[self.next].0.clone());
            } else if self.found.len() > 0 {
                self.stage = SearchStage::Done;
                return ResolveAction::Finish(Ok(self.found.clone()));
            } else {
                self.stage = SearchStage::Fallback;
                return ResolveAction::LookupIp(self.host.clone());
            }
        }
        let ips = match ips {
            Some(v) => v,
            None => {
                self.stage = SearchStage::Done;
                return ResolveAction::Finish(Err(ResolveError::LookupFailed));
            },
        };
        let port = match self.port {
            Some(p) => if self.stage == SearchStage::Direct {
                p
            } else {
                DEFAULT_PORT
            },
            None => DEFAULT_PORT,
        };
        let mut found: Vec<SocketCandidate> = Vec::new();
        pair_with_port(&ips, port, self.v4_only, &mut found);
        assert(found@ =~= pairs(ips@, port, self@.v4_only));
        self.stage = SearchStage::Done;
        self.found = found;
        if self.found.len() > 0 {
            ResolveAction::Finish(Ok(self.found.clone()))
        } else {
            ResolveAction::Finish(Err(ResolveError::NoCandidates))
        }
    }
}

/// Without a configured port, when the SRV lookup gives no record (or fails),
/// the search next asks for the host's addresses, and its outcome is exactly
/// those addresses paired with the default port, IPv6 ones left out under
/// `v4_only`; an empty outcome is the `NoCandidates` error.
pub proof fn lemma_srv_fallback(host: Seq<char>, v4_only: bool, srv: Option<Seq<SrvRecord>>, ips: Seq<IpAddress>)
    requires
        srv is None || srv->0.len() == 0,
    ensures
        search_start(host, None, v4_only).1 == ActionView::LookupSrv(srv_name(host)),
        search_on_srv(search_start(host, None, v4_only).0, srv).1 == ActionView::LookupIp(host),
        search_on_ips(search_on_srv(search_start(host, None, v4_only).0, srv).0, Some(ips)).1 == finish(
            pairs(ips, DEFAULT_PORT, v4_only),
        ),
{
}

/// Without a configured port, when the only SRV target's address lookup
/// fails or gives no usable address, the search falls back to the host: its
/// outcome is the host's addresses paired with the default port, IPv6 ones
/// left out under `v4_only`.
pub proof fn lemma_target_fallback(
    host: Seq<char>,
    v4_only: bool,
    rec: SrvRecord,
    target_answer: Option<Seq<IpAddress>>,
    ips: Seq<IpAddress>,
)
    requires
        target_answer is None || pairs(target_answer->0, rec.port, v4_only).len() == 0,
    ensures
        ({
            let s1 = search_on_srv(search_start(host, None, v4_only).0, Some(seq![rec])).0;
            let s2 = search_on_ips(s1, target_answer);
            &&& s2.1 == ActionView::LookupIp(host)
            &&& search_on_ips(s2.0, Some(ips)).1 == finish(pairs(ips, DEFAULT_PORT, v4_only))
        }),
{
    let rs = seq![rec];
    reveal_with_fuel(targets_of, 2);
    assert(rs.drop_last() =~= Seq::<SrvRecord>::empty());
    assert(min_priority(rs) == rec.priority);
    assert(targets_of(rs, rec.priority).len() == 1);
    assert(pairs(Seq::<IpAddress>::empty(), rec.port, v4_only).len() == 0);
    let s1 = search_on_srv(search_start(host, None, v4_only).0, Some(rs)).0;
    assert(s1.found + pairs(Seq::<IpAddress>::empty(), rec.port, v4_only) =~= Seq::<SocketCandidate>::empty());
    if target_answer is Some {
        assert(s1.found + pairs(target_answer->0, rec.port, v4_only) =~= Seq::<SocketCandidate>::empty());
    }
}

proof fn lemma_lowest_targets_nonempty(rs: Seq<SrvRecord>)
    requires
        rs.len() > 0,
    ensures
        targets_of(rs, min_priority(rs)).len() > 0,
{
    let k = lemma_min_attained(rs);
    lemma_targets_nonempty(rs, min_priority(rs), k);
}

proof fn lemma_min_attained(rs: Seq<SrvRecord>) -> (k: int)
    requires
        rs.len() > 0,
    ensures
        0 <= k < rs.len(),
        rs[k].priority == min_priority(rs),
    decreases rs.len(),
{
    if rs.len() <= 1 {
        0
    } else {
        let j = lemma_min_attained(rs.drop_last());
        if rs.last().priority < min_priority(rs.drop_last()) {
            rs.len() - 1
        } else {
            j
        }
    }
}

proof fn lemma_targets_nonempty(rs: Seq<SrvRecord>, m: u16, k: int)
    requires
        0 <= k < rs.len(),
        rs[k].priority == m,
    ensures
        targets_of(rs, m).len() > 0,
    decreases rs.len(),
{
    if k < rs.len() - 1 {
        lemma_targets_nonempty(rs.drop_last(), m, k);
    }
}

} // verus!
